use perf_rs::events::EventModifiers;
use perf_rs::perf_core::perf_event::{counter_plan, CounterPlan, PerfConfig, PidTarget};
use perf_rs::perf_core::ringbuf::{cpu_plan, pid_plan, RingBufferConfig, RingBufferStats};

#[test]
fn test_with_cpu_sets_cpu_field() {
    let config = PerfConfig::new().with_cpu(0);
    assert_eq!(config.cpu, Some(0));
}

#[test]
fn test_with_cpu_overwrites_previous_value() {
    let config = PerfConfig::new().with_cpu(0).with_cpu(3);
    assert_eq!(config.cpu, Some(3));
}

#[test]
fn test_with_all_cpus_sets_cpu_to_none() {
    let config = PerfConfig::new().with_cpu(2).with_all_cpus();
    assert_eq!(config.cpu, None);
}

#[test]
fn test_with_all_cpus_default_is_none() {
    let config = PerfConfig::new().with_all_cpus();
    assert_eq!(config.cpu, None);
}

#[test]
fn test_builder_chaining_with_cpu() {
    let config = PerfConfig::new().with_pid(1234).with_cpu(1).with_inherit(true);
    assert_eq!(config.pid, Some(1234));
    assert_eq!(config.cpu, Some(1));
    assert!(config.inherit);
}

#[test]
fn modifiers_set_inclusions() {
    let mut m = EventModifiers::new();
    m.exclude_kernel = true;
    let c = PerfConfig::new().with_include_kernel(true).with_modifiers(m);
    assert!(!c.include_kernel);
    assert!(c.include_user);
    assert!(c.include_hv);
}

#[test]
fn counter_plans() {
    assert_eq!(
        counter_plan(&PerfConfig::new()),
        CounterPlan {
            who: PidTarget::ThisProcess,
            cpu: None,
            exclude_kernel: true,
            exclude_hv: false,
            exclude_user: false,
            inherit: false
        }
    );
    assert_eq!(counter_plan(&PerfConfig::new().with_cpu(2)).who, PidTarget::Process(-1));
    assert_eq!(counter_plan(&PerfConfig::new().with_cpu(2)).cpu, Some(2));
    assert_eq!(counter_plan(&PerfConfig::new().with_pid(7).with_cpu(2)).who, PidTarget::Process(7));
}

#[test]
fn sampler_plans() {
    let p = pid_plan(42, 1000, true, true, 0, None, Some(0xff), None);
    assert_eq!(p.pid, 42);
    assert_eq!(p.cpu, None);
    assert_eq!(p.sample_type, 0x1 | 0x2 | 0x4 | 0x20);
    assert_eq!(p.max_stack, None);
    assert_eq!(p.regs_user, None);
    assert_eq!(p.exclude_kernel, None);
    let p = pid_plan(42, 1000, false, true, 64, Some(3), Some(0xff), Some(8192));
    assert_eq!(p.pid, 42);
    assert_eq!(p.cpu, Some(3));
    assert_eq!(p.exclude_kernel, Some(false));
    assert_eq!(p.sample_type, 0x1 | 0x2 | 0x4 | 0x80 | 0x20 | 0x1000 | 0x2000);
    assert_eq!(p.max_stack, Some(64));
    assert_eq!(p.stack_user, Some(8192));
    let c = cpu_plan(1, 100000, false, false, 0, None, None);
    assert_eq!(c.pid, -1);
    assert_eq!(c.cpu, Some(1));
    assert_eq!(c.enable_on_exec, Some(false));
    assert_eq!(c.inherit, None);
    assert_eq!(c.sample_type, 0x1 | 0x2 | 0x4 | 0x80);
}

#[test]
fn ring_buffer_defaults() {
    assert_eq!(RingBufferConfig::default(), RingBufferConfig { map_len: 16, track_lost: true });
    assert_eq!(RingBufferStats::default(), RingBufferStats { lost_samples: 0, records_read: 0 });
}
