use perf_rs::arch::arm64::{get_cortex_events, get_neoverse_events};
use perf_rs::arch::riscv64::{get_riscv_common_events, get_riscv_standard_events, get_sifive_events};
use perf_rs::arch::x86_64::{
    get_amd_events, get_intel_events, x86_64_reg_mask, REG_AX, REG_BP, REG_BX, REG_CX, REG_DI,
    REG_DX, REG_IP, REG_R12, REG_R13, REG_R14, REG_R15, REG_SI, REG_SP, X86_64_CALLEE_SAVED,
    X86_64_REGS_DWARF,
};
use perf_rs::arch::{
    arm64, detect_arch, get_arch_events, get_generic_events, merge_events, riscv64, x86_64, Arch,
    PmuEvent, PmuEventConfig, SysfsEventDiscovery,
};

#[test]
fn test_detect_arch() {
    assert_eq!(detect_arch("x86_64"), Arch::X86_64);
    assert_eq!(detect_arch("amd64\n"), Arch::X86_64);
    assert_eq!(detect_arch("aarch64"), Arch::Arm64);
    assert_eq!(detect_arch("riscv64"), Arch::RiscV64);
    assert_eq!(detect_arch("mips"), Arch::Unknown);
}

#[test]
fn test_arch_display() {
    assert_eq!(Arch::X86_64.to_string(), "x86_64");
    assert_eq!(Arch::Arm64.to_string(), "arm64");
    assert_eq!(Arch::RiscV64.to_string(), "riscv64");
    assert_eq!(Arch::Unknown.to_string(), "unknown");
}

#[test]
fn test_pmu_event_creation() {
    let event = PmuEvent::new("cpu-cycles", "Total cycles")
        .with_alias("cycles")
        .with_category("Hardware event");

    assert_eq!(event.name, "cpu-cycles");
    assert_eq!(event.description, "Total cycles");
    assert_eq!(event.aliases, vec!["cycles"]);
    assert_eq!(event.category, "Hardware event");
    assert!(!event.from_sysfs);
}

#[test]
fn test_pmu_event_config() {
    let config = PmuEventConfig {
        event: 0xc4,
        umask: Some(0x00),
        cmask: None,
        any: None,
        edge: None,
        inv: None,
        ldlat: None,
    };

    let event = PmuEvent::new("test-event", "Test").with_config(config);
    assert!(event.config.is_some());
    assert_eq!(event.config.unwrap().event, 0xc4);
}

#[test]
fn test_get_generic_events() {
    let events = get_generic_events();
    assert!(!events.is_empty());
    assert!(events.iter().any(|e| e.name == "cpu-cycles"));
    assert!(events.iter().any(|e| e.name == "instructions"));
}

#[test]
fn test_get_arch_events() {
    let events = get_arch_events(detect_arch("x86_64"), Vec::new());
    assert!(!events.is_empty());
    assert!(events.iter().any(|e| e.name == "cpu-cycles"));
}

#[test]
fn test_sysfs_discovery_creation() {
    let discovery = SysfsEventDiscovery::new();
    assert_eq!(discovery.sysfs_path(), "/sys/bus/event_source/devices");
}

#[test]
fn test_sysfs_discovery_custom_path() {
    let discovery = SysfsEventDiscovery::with_path("/tmp/test");
    assert_eq!(discovery.sysfs_path(), "/tmp/test");
}

#[test]
fn test_parse_event_config() {
    let discovery = SysfsEventDiscovery::new();

    let config = discovery.parse_event_config("event=0xc4");
    assert!(config.is_some());
    let config = config.unwrap();
    assert_eq!(config.event, 0xc4);
    assert!(config.umask.is_none());

    let config = discovery.parse_event_config("event=0x3c,umask=0x01");
    assert!(config.is_some());
    let config = config.unwrap();
    assert_eq!(config.event, 0x3c);
    assert_eq!(config.umask, Some(0x01));

    let config = discovery.parse_event_config("event=0xd,umask=0x1,cmask=1,any=12");
    assert!(config.is_some());
    let config = config.unwrap();
    assert_eq!(config.event, 0xd);
    assert_eq!(config.umask, Some(0x1));
    assert_eq!(config.cmask, Some(1));
    assert_eq!(config.any, Some(12));
}

#[test]
fn parse_event_config_edge_cases() {
    let d = SysfsEventDiscovery::new();
    assert!(d.parse_event_config("event=0xzz").is_none());
    assert!(d.parse_event_config("event=12,umask=x").is_none());
    let c = d.parse_event_config(" event = 0x0x1f , ldlat=3, foo=9, junk\n").unwrap();
    assert_eq!(c.event, 0x1f);
    assert_eq!(c.ldlat, Some(3));
    assert_eq!(c.umask, None);
    let c = d.parse_event_config("").unwrap();
    assert_eq!(c.event, 0);
}

#[test]
fn sysfs_files_become_events() {
    let d = SysfsEventDiscovery::new();
    let files = vec![
        ("mem-loads".to_string(), "event=0xcd,umask=0x1,ldlat=3".to_string()),
        ("bad".to_string(), "event=q".to_string()),
    ];
    let events = d.discover_cpu_events(&files);
    assert_eq!(events.len(), 1);
    assert_eq!(events[0].name, "mem-loads");
    assert_eq!(events[0].description, "cpu PMU event: mem-loads");
    assert_eq!(events[0].category, "cpu event");
    assert!(events[0].from_sysfs);
    assert_eq!(events[0].config.unwrap().ldlat, Some(3));
}

#[test]
fn test_get_intel_events() {
    let events = get_intel_events();
    assert!(!events.is_empty());
    assert!(events.iter().any(|e| e.name == "inst_retired.any"));
    assert!(events.iter().any(|e| e.name == "uops_retired.all"));
}

#[test]
fn test_get_amd_events() {
    let events = get_amd_events();
    assert!(!events.is_empty());
    assert!(events.iter().any(|e| e.name == "retired_instr"));
    assert!(events.iter().any(|e| e.name == "dc_miss"));
}

#[test]
fn x86_64_test_get_events() {
    let events = x86_64::get_events(Vec::new());
    assert!(!events.is_empty());
    assert!(events.iter().any(|e| e.name == "cpu-cycles"));
    assert!(events.iter().any(|e| e.name == "inst_retired.any"));
    assert!(events.iter().any(|e| e.name == "retired_instr"));
}

#[test]
fn test_x86_64_reg_mask() {
    let mask = x86_64_reg_mask();

    assert_ne!(mask & (1 << REG_IP), 0);
    assert_ne!(mask & (1 << REG_SP), 0);
    assert_ne!(mask & (1 << REG_BP), 0);
    assert_ne!(mask & (1 << REG_BX), 0);
    assert_ne!(mask & (1 << REG_R12), 0);
    assert_ne!(mask & (1 << REG_R13), 0);
    assert_ne!(mask & (1 << REG_R14), 0);
    assert_ne!(mask & (1 << REG_R15), 0);

    assert_eq!(mask & (1 << REG_AX), 0);
    assert_eq!(mask & (1 << REG_CX), 0);
    assert_eq!(mask & (1 << REG_DX), 0);
    assert_eq!(mask & (1 << REG_SI), 0);
    assert_eq!(mask & (1 << REG_DI), 0);

    assert_eq!(mask, X86_64_REGS_DWARF);
}

#[test]
fn test_x86_64_callee_saved_mask() {
    let mask = X86_64_CALLEE_SAVED;

    assert_ne!(mask & (1 << REG_BX), 0);
    assert_ne!(mask & (1 << REG_BP), 0);
    assert_ne!(mask & (1 << REG_R12), 0);
    assert_ne!(mask & (1 << REG_R13), 0);
    assert_ne!(mask & (1 << REG_R14), 0);
    assert_ne!(mask & (1 << REG_R15), 0);

    assert_eq!(mask & X86_64_REGS_DWARF, mask);
}

#[test]
fn test_get_cortex_events() {
    let events = get_cortex_events();
    assert!(!events.is_empty());
    assert!(events.iter().any(|e| e.name == "cpu_cycles"));
    assert!(events.iter().any(|e| e.name == "inst_retired"));
    assert!(events.iter().any(|e| e.name == "l1d_cache_refill"));
}

#[test]
fn test_get_neoverse_events() {
    let events = get_neoverse_events();
    assert!(!events.is_empty());
    assert!(events.iter().any(|e| e.name == "ld_spec"));
    assert!(events.iter().any(|e| e.name == "crypto_spec"));
}

#[test]
fn arm64_test_get_events() {
    let events = arm64::get_events(Vec::new());
    assert!(!events.is_empty());
    assert!(events.iter().any(|e| e.name == "cpu-cycles"));
    assert!(events.iter().any(|e| e.name == "cpu_cycles"));
    assert!(events.iter().any(|e| e.name == "inst_retired"));
}

#[test]
fn test_get_riscv_standard_events() {
    let events = get_riscv_standard_events();
    assert!(!events.is_empty());
    assert!(events.iter().any(|e| e.name == "cycles"));
    assert!(events.iter().any(|e| e.name == "instret"));
}

#[test]
fn test_get_riscv_common_events() {
    let events = get_riscv_common_events();
    assert!(!events.is_empty());
    assert!(events.iter().any(|e| e.name == "l1d_read_access"));
    assert!(events.iter().any(|e| e.name == "branch_miss"));
}

#[test]
fn test_get_sifive_events() {
    let events = get_sifive_events();
    assert!(!events.is_empty());
    assert!(events.iter().any(|e| e.name == "icache_miss"));
    assert!(events.iter().any(|e| e.name == "branch_miss"));
}

#[test]
fn riscv64_test_get_events() {
    let events = riscv64::get_events(Vec::new());
    assert!(!events.is_empty());
    assert!(events.iter().any(|e| e.name == "cpu-cycles"));
    assert!(events.iter().any(|e| e.name == "cycles"));
    assert!(events.iter().any(|e| e.name == "instret"));
}

#[test]
fn merge_adds_only_new_names() {
    let mut events = get_generic_events();
    let n = events.len();
    let extra = vec![
        PmuEvent::new("cpu-cycles", "dup").from_sysfs(),
        PmuEvent::new("mem-loads", "x").from_sysfs(),
        PmuEvent::new("mem-loads", "y").from_sysfs(),
    ];
    merge_events(&mut events, extra);
    assert_eq!(events.len(), n + 1);
    assert_eq!(events[n].name, "mem-loads");
    assert_eq!(events[n].description, "x");
    assert_eq!(events[0].description, "Total cycles");
}

#[test]
fn unknown_arch_has_generic_events_only() {
    let events = get_arch_events(Arch::Unknown, vec![PmuEvent::new("extra", "e")]);
    assert_eq!(events.len(), get_generic_events().len());
}
