use perf_rs::commands::list::EventInfo;
use perf_rs::commands::report::{short_object_name, CallGraph};
use perf_rs::commands::script::format_resolved;
use perf_rs::commands::sections::list_sections;
use perf_rs::counts::aggregate_by_name;
use perf_rs::order::{sort_ranked, str_le};
use perf_rs::perf_core::perf_data::SampleEvent;
use perf_rs::symbols::elf::{ElfSymbols, RawSymbol};
use perf_rs::symbols::SymbolInfo;

fn info(name: &str, category: &str) -> EventInfo {
    EventInfo {
        name: name.to_string(),
        aliases: vec![],
        category: category.to_string(),
        description: format!("about {}", name),
        detailed_description: String::new(),
    }
}

#[test]
fn text_order() {
    assert!(str_le("abc", "abd"));
    assert!(str_le("ab", "abc"));
    assert!(!str_le("b", "abc"));
    assert!(str_le("", ""));
    assert!(str_le("Z", "a"));
}

#[test]
fn counts_summed_by_name() {
    let v = vec![
        ("instructions".to_string(), 5),
        ("cpu-cycles".to_string(), 7),
        ("instructions".to_string(), 10),
        ("cache-misses".to_string(), u64::MAX),
        ("cache-misses".to_string(), 2),
    ];
    assert_eq!(
        aggregate_by_name(&v),
        vec![
            ("cache-misses".to_string(), 1),
            ("cpu-cycles".to_string(), 7),
            ("instructions".to_string(), 15),
        ]
    );
    assert!(aggregate_by_name(&[]).is_empty());
}

#[test]
fn sorting_is_stable() {
    let v = vec![("b".to_string(), 1u64), ("a".to_string(), 2), ("b".to_string(), 0), ("a".to_string(), 1)];
    assert_eq!(
        sort_ranked(v),
        vec![("a".to_string(), 2), ("a".to_string(), 1), ("b".to_string(), 1), ("b".to_string(), 0)]
    );
}

#[test]
fn list_sections_split_sort_and_group() {
    let events = vec![
        info("instructions", "Hardware event"),
        info("cpu-cycles", "Hardware event"),
        info("page-faults", "Software event"),
        info("rNNNN", "Raw event"),
        info("sched:sched_switch", "Tracepoint event"),
        info("irq:irq_handler_entry", "Tracepoint event"),
        info("sched:sched_exec", "Tracepoint event"),
        info("other", "Kernel PMU event"),
    ];
    let s = list_sections(events, None);
    assert_eq!(s.matched, 8);
    let names: Vec<&str> = s.hardware.iter().map(|e| e.name.as_str()).collect();
    assert_eq!(names, vec!["cpu-cycles", "instructions"]);
    assert_eq!(s.software.len(), 1);
    assert_eq!(s.raw.len(), 1);
    assert_eq!(s.tracepoints.len(), 2);
    assert_eq!(s.tracepoints[0].0, "irq");
    assert_eq!(s.tracepoints[1].0, "sched");
    let sched: Vec<&str> = s.tracepoints[1].1.iter().map(|e| e.name.as_str()).collect();
    assert_eq!(sched, vec!["sched:sched_exec", "sched:sched_switch"]);
}

#[test]
fn list_sections_filtered() {
    let events = vec![info("cpu-cycles", "Hardware event"), info("page-faults", "Software event")];
    let s = list_sections(events, Some("CYCLES"));
    assert_eq!(s.matched, 1);
    assert_eq!(s.hardware.len(), 1);
    assert!(s.software.is_empty());
    let events = vec![info("cpu-cycles", "Hardware event")];
    assert_eq!(list_sections(events, Some("nonexistent_xyz")).matched, 0);
}

fn sym(name: &str, address: u64, size: u64) -> RawSymbol {
    RawSymbol { name: name.to_string(), address, size, is_definition: true, is_text: true }
}

#[test]
fn elf_symbols_resolve() {
    let statics = vec![
        sym("func2", 0x2000, 0x200),
        sym("func1", 0x1000, 0x100),
        sym("", 0x3000, 0x10),
        RawSymbol { name: "data".to_string(), address: 0x4000, size: 8, is_definition: true, is_text: false },
        sym("zero", 0, 4),
    ];
    let dynamics = vec![sym("func1_alias", 0x1000, 0x100), sym("dynfunc", 0x5000, 0)];
    let table = ElfSymbols::from_symbols(statics, dynamics);

    let s = table.find_symbol_containing(0x1000).unwrap();
    assert_eq!(s.name, "func1");
    assert_eq!(table.find_symbol_containing(0x1050).unwrap().name, "func1");
    assert!(table.find_symbol_containing(0x5001).is_none());
    assert!(table.find_symbol_containing(0x0fff).is_none());
    assert_eq!(table.find_symbol_containing(0x5000).unwrap().name, "dynfunc");
    assert!(table.find_symbol_containing(0x1100).is_none());

    let r = table.resolve(0x2010, Some(("src/a.rs".to_string(), 7))).unwrap();
    assert_eq!(r.name, "func2");
    assert_eq!(r.source_file, Some("src/a.rs".to_string()));
    assert_eq!(r.line, Some(7));
    assert!(table.resolve(0x9000, None).is_none());
    assert!(ElfSymbols::new().resolve(0x1000, None).is_none());
}

#[test]
fn test_resolve_and_format_no_resolver() {
    assert_eq!(format_resolved(0xdeadbeef, None), "0x00000000deadbeef");
    let info = SymbolInfo::new("main".to_string(), 0x1000, 0x100);
    assert_eq!(format_resolved(0x1010, Some(&info)), "main+0x10");
}

#[test]
fn shared_object_names() {
    assert_eq!(short_object_name("/usr/lib/libc.so.6"), "libc.so.6");
    assert_eq!(short_object_name("/opt/a/libverylongname_abcdef.so"), "...gname_abcdef.so");
}

#[test]
fn report_ranking_and_partners() {
    let mut g = CallGraph::new();
    g.add_sample(&SampleEvent::new(1, 0x1000, 1, 1, 100, vec![0x1000, 0x2000, 0x3000], None));
    g.add_sample(&SampleEvent::new(2, 0x1000, 1, 1, 100, vec![0x1000, 0x2000], None));
    g.add_sample(&SampleEvent::new(3, 0x4000, 1, 1, 500, vec![0x4000, 0x2000], None));
    g.add_sample(&SampleEvent::new(4, 0x2000, 1, 1, 10, vec![], None));

    assert_eq!(g.ranked_functions(None, None), vec![0x4000, 0x1000, 0x2000, 0x3000]);
    assert_eq!(g.ranked_functions(Some("sample"), Some(1)), vec![0x1000]);
    assert_eq!(g.ranked_functions(Some("period"), Some(2)), vec![0x4000, 0x1000]);

    assert_eq!(g.callers_of(0x1000, 5), vec![(0x2000, 2)]);
    let callees = g.callees_of(0x2000, 5);
    assert_eq!(callees, vec![(0x1000, 2), (0x4000, 1)]);
    assert_eq!(g.callees_of(0x2000, 1), vec![(0x1000, 2)]);
    assert!(g.callers_of(0x3000, 5).is_empty());
}

#[test]
fn test_elf_resolver_new() {
    let symbols = ElfSymbols::new();
    assert!(symbols.is_empty());
}

#[test]
fn test_elf_resolver_clear() {
    let mut symbols = ElfSymbols::from_symbols(vec![sym("test", 0x1000, 0x100)], vec![]);
    assert!(!symbols.is_empty());

    symbols.clear();

    assert!(symbols.is_empty());
}

#[test]
fn test_resolve_unloaded() {
    let symbols = ElfSymbols::new();
    let result = symbols.resolve(0x1000, None);
    assert!(result.is_none());
}

#[test]
fn test_find_symbol_containing() {
    let symbols =
        ElfSymbols::from_symbols(vec![sym("func1", 0x1000, 0x100), sym("func2", 0x2000, 0x200)], vec![]);

    let found = symbols.find_symbol_containing(0x1000);
    assert!(found.is_some());
    assert_eq!(found.unwrap().name, "func1");

    let found = symbols.find_symbol_containing(0x1050);
    assert!(found.is_some());
    assert_eq!(found.unwrap().name, "func1");

    let found = symbols.find_symbol_containing(0x5000);
    assert!(found.is_none());
}

/// The 64-byte header of an ELF file with no sections.
fn bare_elf() -> Vec<u8> {
    let mut b = vec![0x7f, b'E', b'L', b'F', 2, 1, 1, 0, 0, 0, 0, 0, 0, 0, 0, 0];
    b.extend_from_slice(&2u16.to_le_bytes()); // executable
    b.extend_from_slice(&62u16.to_le_bytes()); // x86-64
    b.extend_from_slice(&1u32.to_le_bytes());
    b.extend_from_slice(&0u64.to_le_bytes()); // entry
    b.extend_from_slice(&0u64.to_le_bytes()); // program headers
    b.extend_from_slice(&0u64.to_le_bytes()); // section headers
    b.extend_from_slice(&0u32.to_le_bytes());
    b.extend_from_slice(&64u16.to_le_bytes());
    b.extend_from_slice(&56u16.to_le_bytes());
    b.extend_from_slice(&0u16.to_le_bytes());
    b.extend_from_slice(&64u16.to_le_bytes());
    b.extend_from_slice(&0u16.to_le_bytes());
    b.extend_from_slice(&0u16.to_le_bytes());
    b
}

#[test]
fn elf_bytes_are_parsed() {
    assert!(ElfSymbols::from_elf_bytes(&[1, 2, 3]).is_err());
    let symbols = ElfSymbols::from_elf_bytes(&bare_elf()).unwrap();
    assert!(symbols.is_empty());
    assert!(symbols.resolve_in_file(&bare_elf(), 0x1000).is_none());
    let table = ElfSymbols::from_symbols(vec![sym("main", 0x1000, 0x100)], vec![]);
    let found = table.resolve_in_file(&bare_elf(), 0x1010).unwrap();
    assert_eq!(found.name, "main");
    assert_eq!(found.source_file, None);
    assert_eq!(found.line, None);
}
