use perf_rs::arch::Arch;
use perf_rs::commands::list::{
    format_event, format_tracepoint_event, get_hardware_events, get_raw_event_info, get_software_events,
    get_tracepoint_events, matches_filter, EventInfo,
};

fn info(name: &str, aliases: Vec<&str>, category: &str, description: &str, detailed: &str) -> EventInfo {
    EventInfo {
        name: name.to_string(),
        aliases: aliases.into_iter().map(|a| a.to_string()).collect(),
        category: category.to_string(),
        description: description.to_string(),
        detailed_description: detailed.to_string(),
    }
}

#[test]
fn test_get_hardware_events() {
    let events = get_hardware_events(Arch::X86_64, vec![]);
    assert!(!events.is_empty());
    assert!(events.iter().any(|e| e.name == "cpu-cycles"));
    assert!(events.iter().any(|e| e.name == "instructions"));
}

#[test]
fn test_get_software_events() {
    let events = get_software_events();
    assert!(!events.is_empty());
    assert!(events.iter().any(|e| e.name == "cpu-clock"));
    assert!(events.iter().any(|e| e.name == "page-faults"));
}

#[test]
fn test_get_raw_event_info() {
    let event = get_raw_event_info();
    assert_eq!(event.name, "rNNNN");
    assert!(event.aliases.contains(&"RNNNN".to_string()));
    assert_eq!(event.category, "Raw event");
}

#[test]
fn test_matches_filter_name() {
    let event = info("cpu-cycles", vec!["cycles"], "Hardware event", "Total cycles", "Detailed description");
    assert!(matches_filter(&event, "cpu"));
    assert!(matches_filter(&event, "cycles"));
    assert!(matches_filter(&event, "CYCLES"));
    assert!(!matches_filter(&event, "cache"));
}

#[test]
fn test_matches_filter_alias() {
    let event = info(
        "branch-instructions",
        vec!["branches"],
        "Hardware event",
        "Retired branch instructions",
        "Detailed description",
    );
    assert!(matches_filter(&event, "branch"));
    assert!(matches_filter(&event, "branches"));
    assert!(!matches_filter(&event, "cache"));
}

#[test]
fn test_matches_filter_category() {
    let event = info("cpu-cycles", vec![], "Hardware event", "Total cycles", "Detailed description");
    assert!(matches_filter(&event, "hardware"));
    assert!(!matches_filter(&event, "software"));
}

#[test]
fn test_format_event_simple() {
    let event = info("cpu-cycles", vec![], "Hardware event", "Total cycles", "Detailed description");
    let formatted = format_event(&event, false);
    assert!(formatted.contains("cpu-cycles"));
    assert!(formatted.contains("[Hardware event]"));
    assert!(formatted.contains("Total cycles"));
}

#[test]
fn test_format_event_detailed() {
    let event = info("cpu-cycles", vec![], "Hardware event", "Total cycles", "Detailed description here");
    let formatted = format_event(&event, true);
    assert!(formatted.contains("Detailed description here"));
}

#[test]
fn test_format_event_with_aliases() {
    let event = info("cpu-cycles", vec!["cycles"], "Hardware event", "Total cycles", "Detailed description");
    let formatted = format_event(&event, false);
    assert!(formatted.contains("cpu-cycles"));
    assert!(formatted.contains("cycles"));
    assert!(formatted.contains("OR"));
}

#[test]
fn test_get_tracepoint_events_returns_vec() {
    let pairs = vec![
        ("sched".to_string(), "sched_switch".to_string()),
        ("irq".to_string(), "irq_handler_entry".to_string()),
    ];
    let events = get_tracepoint_events(&pairs);
    for event in &events {
        assert_eq!(event.category, "Tracepoint event");
        assert!(event.name.contains(':'));
    }
    assert_eq!(events.len(), 2);
    assert_eq!(events[0].name, "sched:sched_switch");
    assert!(get_tracepoint_events(&[]).is_empty());
}

#[test]
fn test_format_tracepoint_event() {
    let event = info(
        "sched:sched_switch",
        vec![],
        "Tracepoint event",
        "Tracepoint: sched.sched_switch",
        "Detailed tracepoint info",
    );
    let formatted = format_tracepoint_event(&event, false);
    assert!(formatted.contains("sched_switch"));
    assert!(!formatted.contains("sched:sched_switch"));
    assert!(formatted.contains("[Tracepoint event]"));
}

#[test]
fn test_format_tracepoint_event_detailed() {
    let event = info(
        "syscalls:sys_enter_openat",
        vec![],
        "Tracepoint event",
        "Short desc",
        "Detailed tracepoint description",
    );
    let formatted = format_tracepoint_event(&event, true);
    assert!(formatted.contains("sys_enter_openat"));
    assert!(formatted.contains("Detailed tracepoint description"));
}

#[test]
fn test_matches_filter_tracepoint_subsystem() {
    let event = info("sched:sched_switch", vec![], "Tracepoint event", "Tracepoint: sched.sched_switch", "Detailed");
    assert!(matches_filter(&event, "sched"));
    assert!(matches_filter(&event, "SCHED"));
    assert!(matches_filter(&event, "switch"));
    assert!(!matches_filter(&event, "syscall"));
}

#[test]
fn test_matches_filter_tracepoint_full_name() {
    let event = info(
        "syscalls:sys_enter_openat",
        vec![],
        "Tracepoint event",
        "Tracepoint: syscalls.sys_enter_openat",
        "Detailed",
    );
    assert!(matches_filter(&event, "syscalls"));
    assert!(matches_filter(&event, "openat"));
    assert!(matches_filter(&event, "sys_enter"));
    assert!(!matches_filter(&event, "sched"));
}

#[test]
fn test_matches_filter_tracepoint_category() {
    let event = info("irq:irq_handler_entry", vec![], "Tracepoint event", "Tracepoint: irq.irq_handler_entry", "Detailed");
    assert!(matches_filter(&event, "tracepoint"));
    assert!(!matches_filter(&event, "hardware"));
}
