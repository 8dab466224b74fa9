use perf_rs::commands::record::{
    effective_sample_period, event_to_attr, mmap_events_from_maps, parse_sample_record, samples_of, EventIdGenerator,
    SampleFields,
};
use perf_rs::commands::report::{CallEdge, CallGraph, FunctionStats};
use perf_rs::commands::script::{attr_to_event_name, format_symbol_with_source, format_timestamp, ProcessNames};
use perf_rs::commands::stat;
use perf_rs::events::{
    format_event_name, parse_event, Cache, CacheId, CacheOp, CacheResult, Hardware, PerfEvent, Raw, Software,
};
use perf_rs::perf_core::perf_data::{CommEvent, Event, SampleEvent};
use perf_rs::symbols::SymbolInfo;
use perf_rs::tracepoint::{TracepointId, TracepointTable};

fn tp() -> TracepointTable {
    let mut t = TracepointTable::new();
    t.insert(TracepointId::new("sched", "sched_switch", 316));
    t
}

#[test]
fn record_test_parse_event() {
    let evt = parse_event("cpu-cycles", &tp()).unwrap();
    assert!(matches!(evt.event, PerfEvent::Hardware(Hardware::CPU_CYCLES)));
    let evt = parse_event("cycles", &tp()).unwrap();
    assert!(matches!(evt.event, PerfEvent::Hardware(Hardware::CPU_CYCLES)));
    let evt = parse_event("instructions", &tp()).unwrap();
    assert!(matches!(evt.event, PerfEvent::Hardware(Hardware::INSTRUCTIONS)));
    assert!(parse_event("cache-misses", &tp()).is_ok());
    assert!(parse_event("cpu-clock", &tp()).is_ok());
    assert!(parse_event("L1-dcache-loads", &tp()).is_ok());
    assert!(parse_event("unknown", &tp()).is_err());
}

#[test]
fn test_function_stats_default() {
    let stats = FunctionStats::default();
    assert_eq!(stats.self_count, 0);
    assert_eq!(stats.self_period, 0);
    assert_eq!(stats.total_count, 0);
    assert_eq!(stats.total_period, 0);
    assert_eq!(stats.callchain_hits, 0);
}

#[test]
fn test_call_graph_new() {
    let graph = CallGraph::new();
    assert_eq!(graph.total_samples(), 0);
    assert_eq!(graph.function_count(), 0);
    assert_eq!(graph.edge_count(), 0);
}

#[test]
fn test_call_graph_add_sample_no_callchain() {
    let mut graph = CallGraph::new();
    let sample = SampleEvent::new(100, 0x1000, 1234, 5678, 1000, vec![], None);
    graph.add_sample(&sample);

    assert_eq!(graph.total_samples(), 1);
    assert!(graph.function_stats(0x1000).is_some());

    let stats = graph.function_stats(0x1000).unwrap();
    assert_eq!(stats.self_count, 1);
    assert_eq!(stats.self_period, 1000);
    assert_eq!(stats.total_count, 1);
    assert_eq!(stats.total_period, 1000);
    assert_eq!(stats.callchain_hits, 0);
}

#[test]
fn test_call_graph_add_sample_with_callchain() {
    let mut graph = CallGraph::new();
    let callchain = vec![0x1000, 0x2000, 0x3000];
    let sample = SampleEvent::new(100, 0x1000, 1234, 5678, 1000, callchain, None);
    graph.add_sample(&sample);

    assert_eq!(graph.total_samples(), 1);

    let ip_stats = graph.function_stats(0x1000).unwrap();
    assert_eq!(ip_stats.self_count, 1);
    assert_eq!(ip_stats.self_period, 1000);
    assert_eq!(ip_stats.total_count, 1);
    assert_eq!(ip_stats.callchain_hits, 0);

    let caller1_stats = graph.function_stats(0x2000).unwrap();
    assert_eq!(caller1_stats.self_count, 0);
    assert_eq!(caller1_stats.self_period, 0);
    assert_eq!(caller1_stats.total_count, 1);
    assert_eq!(caller1_stats.total_period, 1000);
    assert_eq!(caller1_stats.callchain_hits, 1);

    let caller2_stats = graph.function_stats(0x3000).unwrap();
    assert_eq!(caller2_stats.self_count, 0);
    assert_eq!(caller2_stats.self_period, 0);
    assert_eq!(caller2_stats.total_count, 1);
    assert_eq!(caller2_stats.total_period, 1000);
    assert_eq!(caller2_stats.callchain_hits, 1);

    assert_eq!(graph.edge_count(), 2);
    assert_eq!(graph.edge_count_for(0x2000, 0x1000), 1);
    assert_eq!(graph.edge_count_for(0x3000, 0x2000), 1);
}

#[test]
fn test_call_edge_hash() {
    let edge1 = CallEdge { caller: 0x1000, callee: 0x2000 };
    let edge2 = CallEdge { caller: 0x1000, callee: 0x2000 };
    let edge3 = CallEdge { caller: 0x1000, callee: 0x3000 };
    assert_eq!(edge1, edge2);
    assert_ne!(edge1, edge3);
}

#[test]
fn test_multiple_samples_aggregation() {
    let mut graph = CallGraph::new();
    let sample1 = SampleEvent::new(100, 0x1000, 1234, 5678, 500, vec![], None);
    graph.add_sample(&sample1);

    let sample2 = SampleEvent::new(200, 0x1000, 1234, 5678, 500, vec![0x1000, 0x2000], None);
    graph.add_sample(&sample2);

    assert_eq!(graph.total_samples(), 2);

    let stats_1000 = graph.function_stats(0x1000).unwrap();
    assert_eq!(stats_1000.self_count, 2);
    assert_eq!(stats_1000.self_period, 1000);
    assert_eq!(stats_1000.total_count, 2);
    assert_eq!(stats_1000.total_period, 1000);
    assert_eq!(stats_1000.callchain_hits, 0);

    let stats_2000 = graph.function_stats(0x2000).unwrap();
    assert_eq!(stats_2000.self_count, 0);
    assert_eq!(stats_2000.self_period, 0);
    assert_eq!(stats_2000.total_count, 1);
    assert_eq!(stats_2000.total_period, 500);
    assert_eq!(stats_2000.callchain_hits, 1);
}

#[test]
fn call_graph_mmaps_and_comms() {
    let mut graph = CallGraph::new();
    graph.add_mmap(0x400000, 0x1000, "/usr/bin/a".to_string());
    graph.add_mmap(0x7f0000, 0x2000, "/lib/libc.so".to_string());
    assert_eq!(graph.find_shared_object(0x400010), Some("/usr/bin/a".to_string()));
    assert_eq!(graph.find_shared_object(0x7f1fff), Some("/lib/libc.so".to_string()));
    assert_eq!(graph.find_shared_object(0x401000), None);
    graph.add_comm(42, "bash".to_string());
    assert_eq!(graph.get_comm(42), Some("bash".to_string()));
    assert_eq!(graph.get_comm(43), None);
}

#[test]
fn test_format_timestamp() {
    assert_eq!(format_timestamp(1_123_456_789), "1.123456789");
    assert_eq!(format_timestamp(0), "0.000000000");
    assert_eq!(format_timestamp(1_000_000_000_000), "1000.000000000");
}

#[test]
fn test_format_symbol_with_source_no_offset() {
    let info = SymbolInfo::new("main".to_string(), 0x1000, 0x100);
    assert_eq!(format_symbol_with_source(&info, 0x1000), "main");
}

#[test]
fn test_format_symbol_with_source_with_offset() {
    let info = SymbolInfo::new("main".to_string(), 0x1000, 0x100);
    assert_eq!(format_symbol_with_source(&info, 0x1010), "main+0x10");
}

#[test]
fn test_format_symbol_with_source_location() {
    let info = SymbolInfo::new("main".to_string(), 0x1000, 0x100).with_source("src/main.rs".to_string(), 42);
    assert_eq!(format_symbol_with_source(&info, 0x1000), "main (main.rs:42)");
}

#[test]
fn test_format_symbol_with_source_offset_and_location() {
    let info = SymbolInfo::new("foo".to_string(), 0x2000, 0x50).with_source("/path/to/lib.c".to_string(), 100);
    assert_eq!(format_symbol_with_source(&info, 0x2010), "foo+0x10 (lib.c:100)");
}

#[test]
fn report_symbol_with_source() {
    let info = SymbolInfo::new("foo".to_string(), 0x2000, 0x50).with_source("/path/to/lib.c".to_string(), 100);
    assert_eq!(perf_rs::commands::report::format_symbol_with_source(&info), "foo (lib.c:100)");
    let info = SymbolInfo::new("bar".to_string(), 0x2000, 0x50);
    assert_eq!(perf_rs::commands::report::format_symbol_with_source(&info), "bar");
}

#[test]
fn test_format_number() {
    assert_eq!(stat::format_number(0), "0");
    assert_eq!(stat::format_number(100), "100");
    assert_eq!(stat::format_number(1000), "1,000");
    assert_eq!(stat::format_number(12345), "12,345");
    assert_eq!(stat::format_number(123456), "123,456");
    assert_eq!(stat::format_number(1234567), "1,234,567");
    assert_eq!(stat::format_number(1000000000), "1,000,000,000");
}

#[test]
fn stat_test_parse_event() {
    assert!(matches!(stat::parse_event("cpu-cycles"), Ok(Hardware::CPU_CYCLES)));
    assert!(matches!(stat::parse_event("cycles"), Ok(Hardware::CPU_CYCLES)));
    assert!(matches!(stat::parse_event("instructions"), Ok(Hardware::INSTRUCTIONS)));
    assert!(matches!(stat::parse_event("cache-misses"), Ok(Hardware::CACHE_MISSES)));
    assert!(stat::parse_event("unknown").is_err());
}

#[test]
fn test_parse_events() {
    let events = stat::parse_events("cpu-cycles,instructions").unwrap();
    assert_eq!(events.len(), 2);
    assert!(matches!(events[0], Hardware::CPU_CYCLES));
    assert!(matches!(events[1], Hardware::INSTRUCTIONS));
}

#[test]
fn stat_test_format_event_name() {
    assert_eq!(stat::format_event_name(&Hardware::CPU_CYCLES), "cpu-cycles");
    assert_eq!(stat::format_event_name(&Hardware::INSTRUCTIONS), "instructions");
    assert_eq!(stat::format_event_name(&Hardware::CACHE_MISSES), "cache-misses");
}

#[test]
fn record_attr_of_hardware_event() {
    let ev = PerfEvent::Hardware(Hardware::INSTRUCTIONS);
    let attr = event_to_attr(&ev, 4000, false);
    assert_eq!(attr.type_, 0);
    assert_eq!(attr.config, 1);
    assert_eq!(attr.sample_type, 0x10107);
    assert_eq!(attr.sample_period_or_freq, 4000);
    assert_eq!(attr.bitfields, (1 << 8) | (1 << 7) | (1 << 18));

    let attr = event_to_attr(&PerfEvent::Raw(Raw::new(0x1a2b)), 10, true);
    assert_eq!(attr.type_, 4);
    assert_eq!(attr.config, 0x1a2b);
    assert_eq!(attr.sample_type, 0x10127);
    assert_eq!(effective_sample_period(&PerfEvent::Raw(Raw::new(1)), 10), 10);
}

#[test]
fn record_tracepoint_sampled_every_time() {
    let evt = parse_event("sched:sched_switch", &tp()).unwrap();
    assert_eq!(effective_sample_period(&evt.event, 4000), 1);
    let attr = event_to_attr(&evt.event, 4000, false);
    assert_eq!(attr.type_, 2);
    assert_eq!(attr.config, 316);
    assert_eq!(attr.sample_period_or_freq, 1);
}

#[test]
fn record_event_ids() {
    let mut g = EventIdGenerator::new();
    assert_eq!(g.generate_event_id(), 1024);
    assert_eq!(g.generate_event_id(), 1025);
}

#[test]
fn record_mmaps_from_proc_maps() {
    let maps = "00400000-00452000 r-xp 00000000 08:02 173521 /usr/bin/dbus-daemon\n\
00651000-00652000 r--p 00051000 08:02 173521\n\
7fff0000-7fff2000 rw-p 00000000 00:00 0 [stack]\n\
7f0000001000-7f0000003000 r-xp 00000000 08:02 1 /lib/libc.so.6\n\
garbage\n";
    let ev = mmap_events_from_maps(7, 8, maps);
    assert_eq!(ev.len(), 2);
    assert_eq!(ev[0].addr, 0x400000);
    assert_eq!(ev[0].len, 0x52000);
    assert_eq!(ev[0].filename, "/usr/bin/dbus-daemon");
    assert_eq!(ev[0].pid, 7);
    assert_eq!(ev[0].tid, 8);
    assert_eq!(ev[1].addr, 0x7f0000001000);
    assert_eq!(ev[1].len, 0x2000);
    assert_eq!(ev[1].filename, "/lib/libc.so.6");
}

#[test]
fn record_sample_needs_ip_and_ids() {
    let fields = SampleFields { ip: Some(0x1000), pid: Some(1), tid: Some(2), time: None, cpu: Some(3), callchain: None };
    let s = parse_sample_record(fields, 99).unwrap();
    assert_eq!(s.ip, 0x1000);
    assert_eq!(s.pid, 1);
    assert_eq!(s.tid, 2);
    assert_eq!(s.timestamp, 0);
    assert_eq!(s.period, 99);
    assert_eq!(s.cpu, Some(3));
    assert!(s.callchain.is_empty());

    let fields = SampleFields { ip: None, pid: Some(1), tid: Some(2), time: Some(5), cpu: None, callchain: None };
    assert!(parse_sample_record(fields, 99).is_none());
}

#[test]
fn stat_names_read_back() {
    let all = [
        Hardware::CPU_CYCLES,
        Hardware::INSTRUCTIONS,
        Hardware::CACHE_REFERENCES,
        Hardware::CACHE_MISSES,
        Hardware::BRANCH_INSTRUCTIONS,
        Hardware::BRANCH_MISSES,
        Hardware::STALLED_CYCLES_FRONTEND,
        Hardware::STALLED_CYCLES_BACKEND,
        Hardware::REF_CPU_CYCLES,
    ];
    for h in all {
        let name = stat::format_event_name(&h);
        assert_eq!(stat::parse_event(&name), Ok(h));
    }
    let bus = stat::format_event_name(&Hardware::BUS_CYCLES);
    assert!(stat::parse_event(&bus).is_err());
}

#[test]
fn script_names_recorded_events() {
    let table = tp();
    let events = vec![
        PerfEvent::Hardware(Hardware::REF_CPU_CYCLES),
        PerfEvent::Software(Software::PAGE_FAULTS),
        PerfEvent::Raw(Raw::new(0x1a2b)),
        PerfEvent::Tracepoint(TracepointId::new("sched", "sched_switch", 316)),
    ];
    for event in events {
        let attr = event_to_attr(&event, 1000, true);
        assert_eq!(attr_to_event_name(&attr, &table), format_event_name(&event));
    }
    let cache = PerfEvent::Cache(Cache { which: CacheId::L1D, operation: CacheOp::READ, result: CacheResult::MISS });
    assert_eq!(attr_to_event_name(&event_to_attr(&cache, 1000, false), &table), "cache:65536");
    let cgroup = PerfEvent::Software(Software::CGROUP_SWITCHES);
    assert_eq!(attr_to_event_name(&event_to_attr(&cgroup, 1000, false), &table), "software:11");
}

#[test]
fn samples_kept_in_order() {
    let complete = |ip: u64| SampleFields {
        ip: Some(ip),
        pid: Some(7),
        tid: Some(8),
        time: None,
        cpu: Some(1),
        callchain: Some(vec![ip, ip + 1]),
    };
    let incomplete = SampleFields { ip: Some(5), pid: None, tid: Some(8), time: Some(3), cpu: None, callchain: None };
    let samples = samples_of(vec![Some(complete(0x10)), None, Some(incomplete), Some(complete(0x20))], 500);
    assert_eq!(samples.len(), 2);
    assert_eq!(samples[0].ip, 0x10);
    assert_eq!(samples[1].ip, 0x20);
    assert_eq!(samples[1].callchain, vec![0x20, 0x21]);
    assert!(samples.iter().all(|s| s.period == 500 && s.pid == 7 && s.tid == 8 && s.timestamp == 0));
    assert!(samples_of(vec![None, None], 500).is_empty());
}

#[test]
fn script_names_by_thread_then_process() {
    let events = vec![
        Event::Comm(CommEvent { pid: 10, tid: 10, comm: "server".to_string() }),
        Event::Comm(CommEvent { pid: 10, tid: 11, comm: "worker".to_string() }),
        Event::Comm(CommEvent { pid: 10, tid: 11, comm: "worker-2".to_string() }),
        Event::Comm(CommEvent { pid: 20, tid: 21, comm: "helper".to_string() }),
    ];
    let names = ProcessNames::from_events(&events);
    assert_eq!(names.sample_comm(10, 11), "worker-2");
    assert_eq!(names.sample_comm(10, 12), "server");
    assert_eq!(names.sample_comm(20, 22), "helper");
    assert_eq!(names.sample_comm(30, 31), ":30");
}
