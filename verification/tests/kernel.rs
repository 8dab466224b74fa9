use perf_rs::error::PerfError;
use perf_rs::symbols::{KernelResolver, SymbolInfo, SymbolResolver};

#[test]
fn test_kernel_resolver_new() {
    let resolver = KernelResolver::new();
    assert!(resolver.is_empty());
}

#[test]
fn test_kernel_resolver_clear() {
    let mut resolver = KernelResolver::new();
    resolver.insert_symbol(0x1000, "test_symbol".to_string());
    resolver.clear();
    assert!(resolver.is_empty());
}

#[test]
fn kernel_test_find_symbol_containing() {
    let mut resolver = KernelResolver::new();
    resolver.insert_symbol(0x1000, "sym1".to_string());
    resolver.insert_symbol(0x2000, "sym2".to_string());
    resolver.insert_symbol(0x3000, "sym3".to_string());

    let result = resolver.find_symbol_containing(0x1000);
    assert!(result.is_some());
    let (addr, name) = result.unwrap();
    assert_eq!(addr, 0x1000);
    assert_eq!(name, "sym1");

    let result = resolver.find_symbol_containing(0x1500);
    assert!(result.is_some());
    let (addr, _) = result.unwrap();
    assert_eq!(addr, 0x1000);

    let result = resolver.find_symbol_containing(0x4000);
    assert!(result.is_some());
    let (addr, name) = result.unwrap();
    assert_eq!(addr, 0x3000);
    assert_eq!(name, "sym3");

    let result = resolver.find_symbol_containing(0x100);
    assert!(result.is_none());
}

#[test]
fn kernel_test_resolve_unloaded() {
    let resolver = KernelResolver::new();
    let result = resolver.resolve(0x1000).unwrap();
    assert!(result.is_none());
}

#[test]
fn test_kernel_symbol_load() {
    let mut resolver = KernelResolver::new();
    let kallsyms = "ffffffff81000000 T _text\nffffffff81000100 t helper\nffffffff82000000 D some_data\n";
    match resolver.load_kallsyms(kallsyms) {
        Ok(()) => assert!(!resolver.is_empty()),
        Err(PerfError::PermissionDenied { .. }) => {}
        Err(e) => panic!("Unexpected error: {:?}", e),
    }
}

#[test]
fn kallsyms_hidden_addresses_are_refused() {
    let mut resolver = KernelResolver::new();
    let r = resolver.load_kallsyms("0000000000000000 T _text\n0000000000000000 t x\n");
    assert_eq!(
        r.unwrap_err().to_string(),
        "Permission denied for operation: read kernel symbols - kptr_restrict may be enabled"
    );
}

#[test]
fn kallsyms_keeps_text_symbols_only() {
    let mut resolver = KernelResolver::new();
    resolver
        .load_kallsyms("ffffffff81000000 T _text\nffffffff81000200 W weak_fn [mod]\nffffffff81000100 D data\nbad\n")
        .unwrap();
    let s = resolver.resolve(0xffffffff81000150).unwrap().unwrap();
    assert_eq!(s.name, "_text");
    assert_eq!(s.start_addr, 0xffffffff81000000);
    assert_eq!(s.size, 0);
    let s = resolver.resolve(0xffffffff81000300).unwrap().unwrap();
    assert_eq!(s.name, "weak_fn");
}

#[test]
fn symbol_info_contains() {
    let s = SymbolInfo::new("f".to_string(), 0x1000, 0x10);
    assert!(s.contains(0x1000));
    assert!(s.contains(0x100f));
    assert!(!s.contains(0x1010));
    let z = SymbolInfo::new("g".to_string(), 0x2000, 0);
    assert!(z.contains(0x2000));
    assert!(!z.contains(0x2001));
    let w = SymbolInfo::new("h".to_string(), 1, 2).with_source("a.c".to_string(), 3);
    assert_eq!(w.line, Some(3));
}
