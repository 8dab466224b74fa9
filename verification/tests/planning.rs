use perf_rs::commands::plan::{select_cpus, CommandError, Target};
use perf_rs::commands::record::{
    next_loop_action, plan_record, EventIdGenerator, LoopAction, SeenProcesses, WatchedTarget,
};
use perf_rs::commands::stat::plan_stat;
use perf_rs::error::PerfError;
use perf_rs::events::{tracepoint_lookups, Hardware, PerfEvent};
use perf_rs::perf_core::privilege::{PrivilegeError, PrivilegeLevel};
use perf_rs::tracepoint::{TracepointId, TracepointTable};

fn full() -> Result<PrivilegeLevel, PrivilegeError> {
    Ok(PrivilegeLevel::Full)
}

fn online() -> Result<Vec<u32>, PerfError> {
    Ok(vec![0, 1, 2, 3])
}

#[test]
fn record_needs_something_to_observe() {
    let r = plan_record(None, false, None, None, None, None, None, false, &full(), online(), &TracepointTable::new());
    match r {
        Err(CommandError::Message(m)) => assert!(m.contains("No command specified")),
        _ => panic!("expected a usage error"),
    }
}

#[test]
fn record_defaults() {
    let p = plan_record(None, false, None, None, None, None, None, true, &full(), online(), &TracepointTable::new())
        .ok()
        .unwrap();
    assert_eq!(p.target, Target::Command);
    assert_eq!(p.events.len(), 1);
    assert!(matches!(p.events[0].event, PerfEvent::Hardware(Hardware::CPU_CYCLES)));
    assert_eq!(p.sample_period, 1_000_000);
    assert_eq!(p.output_path, "perf.data");
}

#[test]
fn record_period_from_frequency() {
    let p = plan_record(Some(7), false, None, Some("out.data"), Some("instructions"), Some(1000), None, false, &full(), online(), &TracepointTable::new())
        .ok()
        .unwrap();
    assert_eq!(p.target, Target::Pid(7));
    assert_eq!(p.sample_period, 1_000_000);
    assert_eq!(p.output_path, "out.data");
    let p = plan_record(Some(7), false, None, None, None, Some(0), None, false, &full(), online(), &TracepointTable::new())
        .ok()
        .unwrap();
    assert_eq!(p.sample_period, 1_000_000_000);
    let p = plan_record(Some(7), false, None, None, None, None, Some(4242), false, &full(), online(), &TracepointTable::new())
        .ok()
        .unwrap();
    assert_eq!(p.sample_period, 4242);
}

#[test]
fn record_system_wide_needs_full_access() {
    let limited: Result<PrivilegeLevel, PrivilegeError> = Ok(PrivilegeLevel::Limited);
    let r = plan_record(None, true, None, None, None, None, None, false, &limited, online(), &TracepointTable::new());
    match r {
        Err(CommandError::Perf(PerfError::PermissionDenied { operation })) => {
            assert_eq!(operation, "system-wide profiling")
        }
        _ => panic!("expected a denial"),
    }
    let none: Result<PrivilegeLevel, PrivilegeError> = Ok(PrivilegeLevel::NoAccess);
    let r = plan_record(Some(1), false, None, None, None, None, None, false, &none, online(), &TracepointTable::new());
    match r {
        Err(CommandError::Perf(PerfError::PermissionDenied { operation })) => {
            assert_eq!(operation, "performance monitoring")
        }
        _ => panic!("expected a denial"),
    }
}

#[test]
fn record_unknown_event() {
    let r = plan_record(Some(1), false, None, None, Some("nonsense"), None, None, false, &full(), online(), &TracepointTable::new());
    assert!(matches!(r, Err(CommandError::Event(_))));
}

#[test]
fn record_cpu_list_checked_against_online() {
    let p = plan_record(None, false, Some("3,1"), None, None, None, None, false, &full(), online(), &TracepointTable::new())
        .ok()
        .unwrap();
    assert_eq!(p.target, Target::Cpus(vec![1, 3]));
    let r = plan_record(None, false, Some("2-9"), None, None, None, None, false, &full(), online(), &TracepointTable::new());
    match r {
        Err(CommandError::Perf(e)) => assert_eq!(e, PerfError::CpuOutOfRange { cpu_id: 4, max_cpu: 3 }),
        _ => panic!("expected an out-of-range CPU"),
    }
    let p = plan_record(Some(5), true, None, None, None, None, None, false, &full(), online(), &TracepointTable::new())
        .ok()
        .unwrap();
    assert_eq!(p.target, Target::Cpus(vec![0, 1, 2, 3]));
}

#[test]
fn stat_defaults_and_errors() {
    let p = plan_stat(None, None, false, None, true, &full(), online()).ok().unwrap();
    assert_eq!(p.target, Target::Command);
    assert_eq!(p.events, vec![Hardware::CPU_CYCLES, Hardware::INSTRUCTIONS]);
    let r = plan_stat(None, None, false, None, false, &full(), online());
    match r {
        Err(e) => assert!(e.to_string().contains("No command specified")),
        _ => panic!("expected a usage error"),
    }
    let r = plan_stat(Some(3), Some("bogus"), false, None, false, &full(), online());
    assert!(matches!(r, Err(CommandError::Message(_))));
    let r = plan_stat(None, None, true, None, false, &full(), Ok(vec![]));
    match r {
        Err(CommandError::Message(m)) => assert_eq!(m, "No CPUs available for monitoring"),
        _ => panic!("expected no CPUs"),
    }
    let denied: Result<PrivilegeLevel, PrivilegeError> = Err(PrivilegeError::ParanoidReadError("gone".to_string()));
    let r = plan_stat(Some(3), None, false, None, false, &denied, online());
    match r {
        Err(CommandError::Perf(PerfError::PermissionDenied { operation })) => {
            assert_eq!(operation, "Failed to read perf_event_paranoid: gone")
        }
        _ => panic!("expected a denial"),
    }
}

#[test]
fn cpu_selection_cases() {
    assert_eq!(select_cpus(true, Some("0"), online()), online());
    assert_eq!(select_cpus(false, Some("0-2"), online()), Ok(vec![0, 1, 2]));
    assert!(matches!(select_cpus(false, Some("x"), online()), Err(PerfError::InvalidCpuList { .. })));
    let missing = Err(PerfError::FileRead { path: "p".to_string(), source: "s".to_string() });
    assert_eq!(select_cpus(false, Some("0"), missing.clone()), missing);
}

#[test]
fn tracepoint_names_to_look_up() {
    let l = tracepoint_lookups("cycles, sched:sched_switch ,irq:irq_handler_entry:u,:x");
    assert_eq!(
        l,
        vec![
            ("sched".to_string(), "sched_switch".to_string()),
            ("irq".to_string(), "irq_handler_entry:u".to_string()),
        ]
    );
    let mut t = TracepointTable::new();
    t.insert(TracepointId::new("sched", "sched_switch", 316));
    let p = plan_record(Some(1), false, None, None, Some("sched:sched_switch"), None, None, false, &full(), online(), &t)
        .ok()
        .unwrap();
    assert!(matches!(p.events[0].event, PerfEvent::Tracepoint(_)));
}

#[test]
fn seen_processes_once_each() {
    let mut s = SeenProcesses::new();
    assert!(s.insert(1, 2));
    assert!(!s.insert(1, 2));
    assert!(s.insert(2, 1));
    assert!(s.insert(1, 3));
    let mut g = EventIdGenerator::new();
    for _ in 0..65536 {
        g.generate_event_id();
    }
    assert_eq!(g.generate_event_id(), 1024);
}

#[test]
fn recording_loop_decisions() {
    assert_eq!(next_loop_action(WatchedTarget::Child, true, true), LoopAction::KillChildAndStop);
    assert_eq!(next_loop_action(WatchedTarget::Process, true, true), LoopAction::Stop);
    assert_eq!(next_loop_action(WatchedTarget::Nothing, true, true), LoopAction::Stop);
    assert_eq!(next_loop_action(WatchedTarget::Child, false, false), LoopAction::Stop);
    assert_eq!(next_loop_action(WatchedTarget::Process, false, false), LoopAction::Stop);
    assert_eq!(next_loop_action(WatchedTarget::Nothing, false, false), LoopAction::Drain);
    assert_eq!(next_loop_action(WatchedTarget::Child, false, true), LoopAction::Drain);
}
