use perf_rs::error::UnwindError;
use perf_rs::unwind::unwinder::{CfaRule, FrameRules, RegisterRule, StackWalk, UnwindRow, UserRegisters, REG_IP, REG_SP};

fn row() -> UnwindRow {
    UnwindRow {
        cfa: CfaRule::RegisterAndOffset { register: REG_SP, offset: 16 },
        registers: vec![(REG_IP, RegisterRule::Offset(-8))],
    }
}

#[test]
fn walk_follows_return_addresses() {
    let base = 0x7fff0000u64;
    let mut stack = [0u8; 64];
    stack[8..16].copy_from_slice(&0x400500u64.to_le_bytes());
    stack[24..32].copy_from_slice(&0x400900u64.to_le_bytes());
    let mut regs = UserRegisters::new();
    regs.set_sp(base);
    regs.set_ip(0x400100);

    let mut walk = StackWalk::new(0x400100, regs);
    assert_eq!(walk.next_ip(), Some(0x400100));
    walk.step(FrameRules::Rules(row()), &stack, base).unwrap();
    assert_eq!(walk.next_ip(), Some(0x4004ff));
    walk.step(FrameRules::Rules(row()), &stack, base).unwrap();
    assert_eq!(walk.next_ip(), Some(0x4008ff));
    walk.step(FrameRules::Rules(row()), &stack, base).unwrap();
    assert_eq!(walk.next_ip(), None);
    assert_eq!(walk.into_callchain(), vec![0x400100, 0x4004ff, 0x4008ff]);
}

#[test]
fn walk_without_unwind_information_fails() {
    let mut walk = StackWalk::new(0x1234, UserRegisters::new());
    let r = walk.step(FrameRules::NoUnwindInfo, &[], 0);
    assert_eq!(r, Err(UnwindError::NoEhFrame { address: 0x1234 }));
    assert_eq!(walk.next_ip(), None);
}

#[test]
fn walk_stops_on_unreadable_rules() {
    let mut walk = StackWalk::new(0x1234, UserRegisters::new());
    let r = walk.step(FrameRules::Unreadable(UnwindError::InvalidCfi { message: "bad".to_string() }), &[], 0);
    assert!(r.is_ok());
    assert_eq!(walk.next_ip(), None);
    assert_eq!(walk.into_callchain(), vec![0x1234]);
}
