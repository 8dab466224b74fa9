use perf_rs::error::UnwindError;
use perf_rs::unwind::unwinder::{
    calculate_cfa, read_stack_u64, restore_registers, unwind_frame, CfaRule, RegisterRule, UnwindRow,
    UserRegisters, MAX_REGISTERS, MAX_STACK_DEPTH, REG_BP, REG_BX, REG_IP, REG_SP,
};
use perf_rs::unwind::{EH_FRAME_HDR_NAME, EH_FRAME_NAME, GOT_NAME, TEXT_NAME};
use std::collections::HashMap;

#[test]
fn test_user_registers_new() {
    let regs = UserRegisters::new();
    for i in 0..MAX_REGISTERS {
        assert!(regs.get(i as u16).is_none());
    }
}

#[test]
fn test_user_registers_set_get() {
    let mut regs = UserRegisters::new();
    regs.set(REG_IP, 0x12345678);
    regs.set(REG_SP, 0x7fff0000);
    regs.set(REG_BP, 0x7fff0010);

    assert_eq!(regs.ip(), Some(0x12345678));
    assert_eq!(regs.sp(), Some(0x7fff0000));
    assert_eq!(regs.bp(), Some(0x7fff0010));
}

#[test]
fn test_user_registers_from_map() {
    let mut map = HashMap::new();
    map.insert(REG_IP, 0x1000);
    map.insert(REG_SP, 0x2000);

    let regs = UserRegisters::from_map(map);

    assert_eq!(regs.ip(), Some(0x1000));
    assert_eq!(regs.sp(), Some(0x2000));
    assert_eq!(regs.bp(), None);
}

#[test]
fn test_user_registers_clear() {
    let mut regs = UserRegisters::new();
    regs.set(REG_IP, 0x1234);
    assert!(regs.has(REG_IP));
    regs.clear(REG_IP);
    assert!(!regs.has(REG_IP));
}

#[test]
fn test_stack_read_bounds_check() {
    let stack = [0u8; 16];
    let base = 0x1000u64;

    let result = read_stack_u64(&stack, base, base);
    assert!(result.is_ok());
    assert_eq!(result.unwrap(), 0u64);

    let result = read_stack_u64(&stack, base + 8, base);
    assert!(result.is_ok());

    let result = read_stack_u64(&stack, base - 1, base);
    assert!(result.is_err());

    let result = read_stack_u64(&stack, base + 9, base);
    assert!(result.is_err());

    let result = read_stack_u64(&stack, base + 100, base);
    assert!(result.is_err());
}

#[test]
fn test_stack_read_values() {
    let mut stack = [0u8; 32];
    let base = 0x7fff0000u64;

    stack[0..8].copy_from_slice(&0x1111111111111111u64.to_le_bytes());
    stack[8..16].copy_from_slice(&0x2222222222222222u64.to_le_bytes());
    stack[16..24].copy_from_slice(&0x3333333333333333u64.to_le_bytes());

    assert_eq!(read_stack_u64(&stack, base, base).unwrap(), 0x1111111111111111u64);
    assert_eq!(read_stack_u64(&stack, base + 8, base).unwrap(), 0x2222222222222222u64);
    assert_eq!(read_stack_u64(&stack, base + 16, base).unwrap(), 0x3333333333333333u64);
}

#[test]
fn test_cfa_calculation_rsp_offset() {
    let mut regs = UserRegisters::new();
    regs.set_sp(0x7fff0000);

    let rsp = regs.sp().unwrap();
    let offset: i64 = 8;
    let cfa = (rsp as i64 + offset) as u64;

    assert_eq!(cfa, 0x7fff0008);
}

#[test]
fn test_cfa_calculation_rbp_offset() {
    let mut regs = UserRegisters::new();
    regs.set_bp(0x7fff0010);

    let rbp = regs.bp().unwrap();
    let offset: i64 = 16;
    let cfa = (rbp as i64 + offset) as u64;

    assert_eq!(cfa, 0x7fff0020);
}

#[test]
fn test_cfa_calculation_negative_offset() {
    let mut regs = UserRegisters::new();
    regs.set_sp(0x7fff0100);

    let rsp = regs.sp().unwrap();
    let offset: i64 = -16;
    let cfa = (rsp as i64 + offset) as u64;

    assert_eq!(cfa, 0x7fff00f0);
}

#[test]
fn test_register_rule_offset() {
    let mut stack = [0u8; 64];
    let base = 0x7fff0000u64;
    let cfa = 0x7fff0010u64;

    let return_addr = 0x400500u64;
    stack[8..16].copy_from_slice(&return_addr.to_le_bytes());

    let offset: i64 = -8;
    let addr = (cfa as i64 + offset) as u64;
    let value = read_stack_u64(&stack, addr, base).unwrap();

    assert_eq!(value, return_addr);
}

#[test]
fn test_register_rule_val_offset() {
    let cfa = 0x7fff0010u64;
    let offset: i64 = 16;
    let value = (cfa as i64 + offset) as u64;

    assert_eq!(value, 0x7fff0020u64);
}

#[test]
fn test_register_rule_same_value() {
    let mut current_regs = UserRegisters::new();
    current_regs.set_bp(0x7fff0020);

    let caller_bp = current_regs.bp().unwrap();
    assert_eq!(caller_bp, 0x7fff0020);
}

#[test]
fn test_max_stack_depth_constant() {
    assert_eq!(MAX_STACK_DEPTH, 128);
}

#[test]
fn test_eh_frame_name_constant() {
    assert_eq!(EH_FRAME_NAME, ".eh_frame");
    assert_eq!(EH_FRAME_HDR_NAME, ".eh_frame_hdr");
    assert_eq!(TEXT_NAME, ".text");
    assert_eq!(GOT_NAME, ".got");
}

// The frame address rules, applied to concrete registers.

#[test]
fn cfa_register_plus_offset() {
    let mut regs = UserRegisters::new();
    regs.set_sp(0x7fff0000);
    let row = UnwindRow { cfa: CfaRule::RegisterAndOffset { register: REG_SP, offset: 8 }, registers: vec![] };
    assert_eq!(calculate_cfa(&row, &regs, &[], 0).unwrap(), 0x7fff0008);

    let row = UnwindRow { cfa: CfaRule::RegisterAndOffset { register: REG_SP, offset: -16 }, registers: vec![] };
    assert_eq!(calculate_cfa(&row, &regs, &[], 0).unwrap(), 0x7ffefff0);
}

#[test]
fn cfa_missing_register() {
    let regs = UserRegisters::new();
    let row = UnwindRow { cfa: CfaRule::RegisterAndOffset { register: REG_BP, offset: 16 }, registers: vec![] };
    assert_eq!(calculate_cfa(&row, &regs, &[], 0), Err(UnwindError::RegisterNotFound { register: REG_BP }));
}

#[test]
fn cfa_expression_is_invalid() {
    let regs = UserRegisters::new();
    let row = UnwindRow { cfa: CfaRule::Expression, registers: vec![] };
    assert!(matches!(calculate_cfa(&row, &regs, &[], 0), Err(UnwindError::InvalidCfi { .. })));
}

#[test]
fn restore_applies_each_rule() {
    let base = 0x7fff0000u64;
    let mut stack = [0u8; 32];
    stack[8..16].copy_from_slice(&0x400500u64.to_le_bytes());
    stack[0..8].copy_from_slice(&0x7fff0100u64.to_le_bytes());

    let mut regs = UserRegisters::new();
    regs.set_sp(base);
    regs.set(REG_BX, 77);
    let cfa = base + 16;
    let row = UnwindRow {
        cfa: CfaRule::RegisterAndOffset { register: REG_SP, offset: 16 },
        registers: vec![
            (REG_IP, RegisterRule::Offset(-8)),
            (REG_BP, RegisterRule::Offset(-16)),
            (REG_BX, RegisterRule::SameValue),
        ],
    };
    let caller = restore_registers(&row, &regs, &stack, base, cfa).unwrap();
    assert_eq!(caller.ip(), Some(0x400500));
    assert_eq!(caller.bp(), Some(0x7fff0100));
    assert_eq!(caller.get(REG_BX), Some(77));
    assert_eq!(caller.sp(), Some(cfa));
}

#[test]
fn restore_fails_on_unreadable_stack() {
    let regs = UserRegisters::new();
    let row = UnwindRow {
        cfa: CfaRule::RegisterAndOffset { register: REG_SP, offset: 16 },
        registers: vec![(REG_IP, RegisterRule::Offset(64))],
    };
    let r = restore_registers(&row, &regs, &[0u8; 8], 0x1000, 0x1000);
    assert_eq!(r.err(), Some(UnwindError::StackReadFailed { address: 0x1040 }));
}

#[test]
fn unwind_frame_steps_to_caller() {
    let base = 0x7fff0000u64;
    let mut stack = [0u8; 16];
    stack[8..16].copy_from_slice(&0x400500u64.to_le_bytes());

    let mut regs = UserRegisters::new();
    regs.set_sp(base);
    regs.set_ip(0x400100);
    let row = UnwindRow {
        cfa: CfaRule::RegisterAndOffset { register: REG_SP, offset: 16 },
        registers: vec![(REG_IP, RegisterRule::Offset(-8))],
    };
    let next = unwind_frame(&row, &mut regs, &stack, base).unwrap();
    assert_eq!(next, Some(0x4004ff));
    assert_eq!(regs.ip(), Some(0x400500));
    assert_eq!(regs.sp(), Some(base + 16));
}

#[test]
fn unwind_frame_ends_at_zero_return_address() {
    let base = 0x7fff0000u64;
    let stack = [0u8; 16];
    let mut regs = UserRegisters::new();
    regs.set_sp(base);
    let row = UnwindRow {
        cfa: CfaRule::RegisterAndOffset { register: REG_SP, offset: 16 },
        registers: vec![(REG_IP, RegisterRule::Offset(-8))],
    };
    assert_eq!(unwind_frame(&row, &mut regs, &stack, base).unwrap(), None);
}
