use perf_rs::events::{
    format_event_name, format_parsed_event_name, parse_event, parse_events, Cache, CacheId, CacheOp,
    CacheResult, EventModifiers, Hardware, ParsedEvent, PerfEvent, Raw, Software,
};
use perf_rs::tracepoint::{TracepointId, TracepointTable};

/// The tracepoints that the kernel lists in these tests.
fn tp() -> TracepointTable {
    let mut t = TracepointTable::new();
    t.insert(TracepointId::new("sched", "sched_switch", 316));
    t.insert(TracepointId::new("irq", "irq_handler_entry", 95));
    t
}


#[test]
fn test_parse_hardware_events() {
    let evt = parse_event("cpu-cycles", &tp()).unwrap();
    assert!(matches!(
        evt.event,
        PerfEvent::Hardware(Hardware::CPU_CYCLES)
    ));
    assert!(evt.modifiers.is_empty());

    let evt = parse_event("cycles", &tp()).unwrap();
    assert!(matches!(
        evt.event,
        PerfEvent::Hardware(Hardware::CPU_CYCLES)
    ));

    let evt = parse_event("instructions", &tp()).unwrap();
    assert!(matches!(
        evt.event,
        PerfEvent::Hardware(Hardware::INSTRUCTIONS)
    ));

    let evt = parse_event("cache-misses", &tp()).unwrap();
    assert!(matches!(
        evt.event,
        PerfEvent::Hardware(Hardware::CACHE_MISSES)
    ));

    let evt = parse_event("branch-misses", &tp()).unwrap();
    assert!(matches!(
        evt.event,
        PerfEvent::Hardware(Hardware::BRANCH_MISSES)
    ));

    let evt = parse_event("bus-cycles", &tp()).unwrap();
    assert!(matches!(
        evt.event,
        PerfEvent::Hardware(Hardware::BUS_CYCLES)
    ));

    let evt = parse_event("ref-cycles", &tp()).unwrap();
    assert!(matches!(
        evt.event,
        PerfEvent::Hardware(Hardware::REF_CPU_CYCLES)
    ));
}

#[test]
fn test_parse_cache_events() {
    let evt = parse_event("L1-dcache-loads", &tp()).unwrap();
    assert!(matches!(
        evt.event,
        PerfEvent::Cache(Cache {
            which: CacheId::L1D,
            operation: CacheOp::READ,
            result: CacheResult::ACCESS,
        })
    ));

    let evt = parse_event("L1-dcache-load-misses", &tp()).unwrap();
    assert!(matches!(
        evt.event,
        PerfEvent::Cache(Cache {
            which: CacheId::L1D,
            operation: CacheOp::READ,
            result: CacheResult::MISS,
        })
    ));

    let evt = parse_event("LLC-loads", &tp()).unwrap();
    assert!(matches!(
        evt.event,
        PerfEvent::Cache(Cache {
            which: CacheId::LL,
            operation: CacheOp::READ,
            result: CacheResult::ACCESS,
        })
    ));

    let evt = parse_event("dTLB-load-misses", &tp()).unwrap();
    assert!(matches!(
        evt.event,
        PerfEvent::Cache(Cache {
            which: CacheId::DTLB,
            operation: CacheOp::READ,
            result: CacheResult::MISS,
        })
    ));
}

#[test]
fn test_parse_raw_events() {
    let evt = parse_event("r1a8", &tp()).unwrap();
    assert!(matches!(
        evt.event,
        PerfEvent::Raw(Raw { config: 0x1a8, .. })
    ));

    let evt = parse_event("r00c0", &tp()).unwrap();
    assert!(matches!(
        evt.event,
        PerfEvent::Raw(Raw { config: 0xc0, .. })
    ));

    let evt = parse_event("r0x1a8", &tp()).unwrap();
    assert!(matches!(
        evt.event,
        PerfEvent::Raw(Raw { config: 0x1a8, .. })
    ));

    let evt = parse_event("R1A8", &tp()).unwrap();
    assert!(matches!(
        evt.event,
        PerfEvent::Raw(Raw { config: 0x1a8, .. })
    ));
}

#[test]
fn test_parse_events_comma_separated() {
    let events = parse_events("cpu-cycles,instructions,cache-misses", &tp()).unwrap();
    assert_eq!(events.len(), 3);
    assert!(matches!(
        events[0].event,
        PerfEvent::Hardware(Hardware::CPU_CYCLES)
    ));
    assert!(matches!(
        events[1].event,
        PerfEvent::Hardware(Hardware::INSTRUCTIONS)
    ));
    assert!(matches!(
        events[2].event,
        PerfEvent::Hardware(Hardware::CACHE_MISSES)
    ));
}

#[test]
fn test_parse_event_unknown() {
    assert!(parse_event("unknown-event", &tp()).is_err());
}

#[test]
fn events_test_format_event_name() {
    assert_eq!(
        format_event_name(&PerfEvent::Hardware(Hardware::CPU_CYCLES)),
        "cpu-cycles"
    );
    assert_eq!(
        format_event_name(&PerfEvent::Software(Software::CPU_CLOCK)),
        "cpu-clock"
    );
    assert_eq!(
        format_event_name(&PerfEvent::Cache(Cache {
            which: CacheId::L1D,
            operation: CacheOp::READ,
            result: CacheResult::ACCESS,
        })),
        "L1-dcache-loads"
    );
    assert_eq!(format_event_name(&PerfEvent::Raw(Raw::new(0x1a8))), "r1a8");
}

// Tracepoint parsing tests

#[test]
fn test_parse_tracepoint_empty_string_returns_error() {
    let result = parse_event("", &tp());
    assert!(result.is_err());
}

#[test]
fn test_parse_tracepoint_no_colon_returns_error() {
    let result = parse_event("sched_switch", &tp());
    assert!(result.is_err());
}

#[test]
fn test_parse_tracepoint_empty_subsystem_returns_error() {
    let result = parse_event(":sched_switch", &tp());
    assert!(result.is_err());
}

#[test]
fn test_parse_tracepoint_empty_name_returns_error() {
    let result = parse_event("sched:", &tp());
    assert!(result.is_err());
}

#[test]
fn test_parse_tracepoint_invalid_tracepoint_returns_error() {
    let result = parse_event("invalid:nonexistent_tracepoint", &tp());
    assert!(result.is_err());
    let err_msg = result.unwrap_err().to_string();
    assert!(
        err_msg.contains("not found")
            || err_msg.contains("tracefs")
            || err_msg.contains("Unknown event")
    );
}

#[test]
fn test_parse_tracepoint_whitespace_handling() {
    let result = parse_event("  sched:sched_switch  ", &tp());
    match result {
        Ok(parsed) => match parsed.event {
            PerfEvent::Tracepoint(tp) => {
                assert_eq!(tp.subsystem, "sched");
                assert_eq!(tp.name, "sched_switch");
            }
            _ => panic!("Expected Tracepoint variant"),
        },
        Err(e) => {
            let err_msg = e.to_string();
            assert!(
                err_msg.contains("not found")
                    || err_msg.contains("tracefs")
                    || err_msg.contains("Permission"),
                "Unexpected error: {}",
                err_msg
            );
        }
    }
}

#[test]
fn test_is_tracepoint_method() {
    let tp = TracepointId::new("sched", "sched_switch", 123);
    let event = PerfEvent::Tracepoint(tp);
    assert!(event.is_tracepoint());
    assert!(!event.is_hardware());
    assert!(!event.is_software());
}

#[test]
fn test_format_tracepoint_event_name() {
    let tp = TracepointId::new("sched", "sched_switch", 123);
    let event = PerfEvent::Tracepoint(tp);
    assert_eq!(format_event_name(&event), "sched:sched_switch");
}

#[test]
fn test_tracepoint_event_clone_eq() {
    let tp1 = TracepointId::new("irq", "irq_handler_entry", 456);
    let event1 = PerfEvent::Tracepoint(tp1);
    let event2 = event1.clone();
    assert_eq!(event1, event2);
}

#[test]
fn test_event_modifier_user_only() {
    let evt = parse_event("cpu-cycles:u", &tp()).unwrap();
    assert!(matches!(
        evt.event,
        PerfEvent::Hardware(Hardware::CPU_CYCLES)
    ));
    assert!(evt.modifiers.exclude_kernel);
    assert!(!evt.modifiers.exclude_user);
}

#[test]
fn test_event_modifier_kernel_only() {
    let evt = parse_event("instructions:k", &tp()).unwrap();
    assert!(matches!(
        evt.event,
        PerfEvent::Hardware(Hardware::INSTRUCTIONS)
    ));
    assert!(evt.modifiers.exclude_user);
    assert!(!evt.modifiers.exclude_kernel);
}

#[test]
fn test_event_modifier_hypervisor() {
    let evt = parse_event("cache-misses:h", &tp()).unwrap();
    assert!(matches!(
        evt.event,
        PerfEvent::Hardware(Hardware::CACHE_MISSES)
    ));
    assert!(evt.modifiers.exclude_user);
    assert!(evt.modifiers.exclude_kernel);
}

#[test]
fn test_event_modifier_user_kernel() {
    let evt = parse_event("cycles:uk", &tp()).unwrap();
    assert!(matches!(
        evt.event,
        PerfEvent::Hardware(Hardware::CPU_CYCLES)
    ));
    assert!(evt.modifiers.exclude_kernel);
    assert!(evt.modifiers.exclude_user);
}

#[test]
fn test_event_modifier_precise() {
    let evt = parse_event("instructions:p", &tp()).unwrap();
    assert!(matches!(
        evt.event,
        PerfEvent::Hardware(Hardware::INSTRUCTIONS)
    ));
    assert!(evt.modifiers.precise);
}

#[test]
fn test_event_modifier_combined() {
    let evt = parse_event("cycles:up", &tp()).unwrap();
    assert!(matches!(
        evt.event,
        PerfEvent::Hardware(Hardware::CPU_CYCLES)
    ));
    assert!(evt.modifiers.exclude_kernel);
    assert!(!evt.modifiers.exclude_user);
    assert!(evt.modifiers.precise);
}

#[test]
fn test_event_modifier_on_cache_event() {
    let evt = parse_event("L1-dcache-loads:u", &tp()).unwrap();
    assert!(matches!(
        evt.event,
        PerfEvent::Cache(Cache {
            which: CacheId::L1D,
            operation: CacheOp::READ,
            result: CacheResult::ACCESS,
        })
    ));
    assert!(evt.modifiers.exclude_kernel);
}

#[test]
fn test_event_modifier_invalid() {
    let result = parse_event("cycles:xyz", &tp());
    assert!(result.is_err());
}

#[test]
fn test_event_modifiers_parse() {
    let (mods, unknown) = EventModifiers::parse("uk");
    assert!(mods.exclude_kernel);
    assert!(mods.exclude_user);
    assert!(unknown.is_empty());

    let (mods, unknown) = EventModifiers::parse("p");
    assert!(mods.precise);
    assert!(!mods.exclude_user);
    assert!(!mods.exclude_kernel);

    let (mods, unknown) = EventModifiers::parse("upx");
    assert!(mods.exclude_kernel);
    assert!(mods.precise);
    assert_eq!(unknown, "x");
}

#[test]
fn test_event_modifiers_to_suffix() {
    let mut mods = EventModifiers::new();
    assert!(mods.to_suffix().is_empty());

    mods.exclude_kernel = true;
    assert_eq!(mods.to_suffix(), ":u");

    mods.exclude_kernel = false;
    mods.exclude_user = true;
    assert_eq!(mods.to_suffix(), ":k");

    mods.exclude_kernel = true;
    assert_eq!(mods.to_suffix(), ":h");

    mods.precise = true;
    assert_eq!(mods.to_suffix(), ":hp");
}

#[test]
fn test_tracepoint_with_modifier_not_confused() {
    let evt = parse_event("sched:sched_switch", &tp()).unwrap();
    assert!(matches!(evt.event, PerfEvent::Tracepoint(_)));
    assert!(evt.modifiers.is_empty());
}

#[test]
fn formatted_names_read_back() {
    let events = vec![
        PerfEvent::Hardware(Hardware::CPU_CYCLES),
        PerfEvent::Hardware(Hardware::REF_CPU_CYCLES),
        PerfEvent::Hardware(Hardware::STALLED_CYCLES_BACKEND),
        PerfEvent::Software(Software::CONTEXT_SWITCHES),
        PerfEvent::Software(Software::CGROUP_SWITCHES),
        PerfEvent::Cache(Cache { which: CacheId::L1D, operation: CacheOp::READ, result: CacheResult::MISS }),
        PerfEvent::Cache(Cache { which: CacheId::LL, operation: CacheOp::WRITE, result: CacheResult::ACCESS }),
        PerfEvent::Cache(Cache { which: CacheId::BPU, operation: CacheOp::READ, result: CacheResult::ACCESS }),
        PerfEvent::Cache(Cache {
            which: CacheId::ITLB,
            operation: CacheOp::PREFETCH,
            result: CacheResult::MISS,
        }),
        PerfEvent::Raw(Raw::new(0x1a)),
        PerfEvent::Raw(Raw::new(0)),
        PerfEvent::Raw(Raw::new(u64::MAX)),
    ];
    for event in events {
        let name = format_event_name(&event);
        let parsed = parse_event(&name, &tp()).unwrap();
        assert_eq!(parsed.event, event, "{}", name);
        assert!(parsed.modifiers.is_empty());
    }
}

#[test]
fn prefetch_access_name_reads_back() {
    let event = PerfEvent::Cache(Cache {
        which: CacheId::L1D,
        operation: CacheOp::PREFETCH,
        result: CacheResult::ACCESS,
    });
    let name = format_event_name(&event);
    assert_eq!(name, "L1-dcache-prefetches");
    assert_eq!(parse_event(&name, &tp()).unwrap().event, event);
}

#[test]
fn formatted_events_with_modifiers_read_back() {
    let mut user_only = EventModifiers::new();
    user_only.exclude_kernel = true;
    let mut precise_kernel = EventModifiers::new();
    precise_kernel.exclude_user = true;
    precise_kernel.precise = true;
    let mut hypervisor = EventModifiers::new();
    hypervisor.exclude_user = true;
    hypervisor.exclude_kernel = true;
    let cases = vec![
        (PerfEvent::Hardware(Hardware::INSTRUCTIONS), user_only.clone()),
        (PerfEvent::Software(Software::PAGE_FAULTS), precise_kernel.clone()),
        (
            PerfEvent::Cache(Cache { which: CacheId::DTLB, operation: CacheOp::READ, result: CacheResult::MISS }),
            hypervisor.clone(),
        ),
        (PerfEvent::Raw(Raw::new(0xc0)), precise_kernel.clone()),
        (PerfEvent::Hardware(Hardware::BRANCH_MISSES), EventModifiers::new()),
    ];
    for (event, modifiers) in cases {
        let parsed = ParsedEvent::with_modifiers(event, modifiers);
        let name = format_parsed_event_name(&parsed);
        assert_eq!(parse_event(&name, &tp()).unwrap(), parsed, "{}", name);
    }
}

#[test]
fn suffix_letters_read_back() {
    let mut m = EventModifiers::new();
    m.exclude_user = true;
    m.precise = true;
    let suffix = m.to_suffix();
    assert_eq!(suffix, ":kp");
    let (back, unknown) = EventModifiers::parse(&suffix[1..]);
    assert_eq!(back, m);
    assert!(unknown.is_empty());
}

#[test]
fn known_tracepoint_names_read_back() {
    for (subsystem, name, id) in [("sched", "sched_switch", 316u64), ("irq", "irq_handler_entry", 95)] {
        let event = PerfEvent::Tracepoint(TracepointId::new(subsystem, name, id));
        let text = format_event_name(&event);
        let parsed = parse_event(&text, &tp()).unwrap();
        assert_eq!(parsed.event, event);
        assert!(parsed.modifiers.is_empty());
    }
    let unknown = PerfEvent::Tracepoint(TracepointId::new("block", "block_rq_issue", 7));
    assert!(parse_event(&format_event_name(&unknown), &tp()).is_err());
}

#[test]
fn padded_names_and_appended_modifiers() {
    assert_eq!(parse_event("  cycles  ", &tp()).unwrap(), parse_event("cycles", &tp()).unwrap());
    let parsed = parse_event("cycles:up", &tp()).unwrap();
    assert_eq!(parsed.event, PerfEvent::Hardware(Hardware::CPU_CYCLES));
    assert!(parsed.modifiers.exclude_kernel);
    assert!(parsed.modifiers.precise);
    assert!(!parsed.modifiers.exclude_user);
    let parsed = parse_event("L1-dcache-loads:k", &tp()).unwrap();
    assert_eq!(
        parsed.event,
        PerfEvent::Cache(Cache { which: CacheId::L1D, operation: CacheOp::READ, result: CacheResult::ACCESS })
    );
    assert!(parsed.modifiers.exclude_user);
    let parsed = parse_event("r1a8:", &tp()).unwrap();
    assert_eq!(parsed.event, PerfEvent::Raw(Raw::new(0x1a8)));
    assert!(parsed.modifiers.is_empty());
    assert!(parse_event("cycles:xyz", &tp()).is_err());
}
