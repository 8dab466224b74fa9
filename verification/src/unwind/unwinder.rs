//! Registers of a frame, stack reads, and the unwind rules that give the
//! caller's registers from the callee's.

use vstd::prelude::*;
use vstd::bytes::{spec_u64_from_le_bytes, u64_from_le_bytes};
use vstd::slice::slice_subrange;
use std::collections::HashMap;
use crate::error::UnwindError;
use crate::text::string_of;

verus! {

broadcast use vstd::std_specs::hash::group_hash_axioms;

/// Register numbers of x86_64 in the kernel's sample layout.
pub const REG_AX: u16 = 0;
pub const REG_BX: u16 = 1;
pub const REG_CX: u16 = 2;
pub const REG_DX: u16 = 3;
pub const REG_SI: u16 = 4;
pub const REG_DI: u16 = 5;
pub const REG_BP: u16 = 6;
pub const REG_SP: u16 = 7;
pub const REG_IP: u16 = 8;
pub const REG_FLAGS: u16 = 9;
pub const REG_CS: u16 = 10;
pub const REG_SS: u16 = 11;
pub const REG_DS: u16 = 12;
pub const REG_ES: u16 = 13;
pub const REG_FS: u16 = 14;
pub const REG_GS: u16 = 15;
pub const REG_R8: u16 = 16;
pub const REG_R9: u16 = 17;
pub const REG_R10: u16 = 18;
pub const REG_R11: u16 = 19;
pub const REG_R12: u16 = 20;
pub const REG_R13: u16 = 21;
pub const REG_R14: u16 = 22;
pub const REG_R15: u16 = 23;

/// How many frames unwinding follows at most.
pub const MAX_STACK_DEPTH: usize = 128;

/// How many registers a register set holds.
pub const MAX_REGISTERS: usize = 24;

/// The registers of one frame; a register may be unknown.
#[derive(Clone, Debug)]
pub struct UserRegisters {
    values: [Option<u64>; 24],
}

impl View for UserRegisters {
    type V = Seq<Option<u64>>;

    /// The value of each of the 24 registers.
    closed spec fn view(&self) -> Seq<Option<u64>> {
        self.values@
    }
}

/// No register known.
pub open spec fn no_registers() -> Seq<Option<u64>> {
    Seq::new(24, |i: int| None::<u64>)
}

/// What reading register `reg` of a set gives: nothing beyond the 24.
pub open spec fn reg_value(regs: Seq<Option<u64>>, reg: u16) -> Option<u64> {
    if (reg as int) < 24 {
        regs[reg as int]
    } else {
        None
    }
}

/// A register set after setting `reg` (ignored beyond the 24).
pub open spec fn with_reg(regs: Seq<Option<u64>>, reg: u16, v: Option<u64>) -> Seq<Option<u64>> {
    if (reg as int) < 24 {
        regs.update(reg as int, v)
    } else {
        regs
    }
}

impl Default for UserRegisters {
    fn default() -> (r: Self)
        ensures
            r@ == no_registers(),
    {
        UserRegisters::new()
    }
}

impl UserRegisters {
    /// A register set holds the 24 registers.
    pub proof fn lemma_len(&self)
        ensures
            self@.len() == 24,
    {
    }

    /// An empty register set.
    pub fn new() -> (r: Self)
        ensures
            r@ == no_registers(),
    {
        let r = UserRegisters { values: [None; 24] };
        assert(r@ =~= no_registers());
        r
    }

    /// A register set with the registers of a map; numbers beyond the 24
    /// are left out.
    pub fn from_map(map: HashMap<u16, u64>) -> (r: Self)
        ensures
            r@.len() == 24,
            forall|i: int| 0 <= i < 24 ==> #[trigger] r@[i] == (if map@.contains_key(i as u16) {
                Some(map@[i as u16])
            } else {
                None::<u64>
            }),
    {
        let mut regs = UserRegisters::new();
        let mut i: u16 = 0;
        while i < 24
            invariant
                0 <= i <= 24,
                regs@.len() == 24,
                forall|k: int| 0 <= k < i ==> #[trigger] regs@[k] == (if map@.contains_key(k as u16) {
                    Some(map@[k as u16])
                } else {
                    None::<u64>
                }),
                forall|k: int| i <= k < 24 ==> #[trigger] regs@[k] == None::<u64>,
            decreases 24 - i,
        {
            match map.get(&i) {
                Some(v) => {
                    regs.set(i, *v);
                },
                None => {},
            }
            i = i + 1;
        }
        regs
    }

    /// The value of register `reg`, if known.
    pub fn get(&self, reg: u16) -> (r: Option<u64>)
        ensures
            self@.len() == 24,
            r == reg_value(self@, reg),
    {
        if (reg as usize) < 24 {
            self.values[reg as usize]
        } else {
            None
        }
    }

    /// Sets register `reg` (ignored beyond the 24).
    pub fn set(&mut self, reg: u16, value: u64)
        ensures
            old(self)@.len() == 24,
            final(self)@.len() == 24,
            final(self)@ == with_reg(old(self)@, reg, Some(value)),
    {
        if (reg as usize) < 24 {
            self.values[reg as usize] = Some(value);
        }
    }

    /// The instruction pointer.
    pub fn ip(&self) -> (r: Option<u64>)
        ensures
            r == reg_value(self@, REG_IP),
    {
        self.get(REG_IP)
    }

    pub fn set_ip(&mut self, value: u64)
        ensures
            final(self)@ == with_reg(old(self)@, REG_IP, Some(value)),
    {
        self.set(REG_IP, value);
    }

    /// The stack pointer.
    pub fn sp(&self) -> (r: Option<u64>)
        ensures
            r == reg_value(self@, REG_SP),
    {
        self.get(REG_SP)
    }

    pub fn set_sp(&mut self, value: u64)
        ensures
            final(self)@ == with_reg(old(self)@, REG_SP, Some(value)),
    {
        self.set(REG_SP, value);
    }

    /// The frame pointer.
    pub fn bp(&self) -> (r: Option<u64>)
        ensures
            r == reg_value(self@, REG_BP),
    {
        self.get(REG_BP)
    }

    pub fn set_bp(&mut self, value: u64)
        ensures
            final(self)@ == with_reg(old(self)@, REG_BP, Some(value)),
    {
        self.set(REG_BP, value);
    }

    /// Whether register `reg` is known.
    pub fn has(&self, reg: u16) -> (r: bool)
        ensures
            self@.len() == 24,
            r == (reg_value(self@, reg) is Some),
    {
        self.get(reg).is_some()
    }

    /// Forgets register `reg`.
    pub fn clear(&mut self, reg: u16)
        ensures
            old(self)@.len() == 24,
            final(self)@.len() == 24,
            final(self)@ == with_reg(old(self)@, reg, None),
    {
        if (reg as usize) < 24 {
            self.values[reg as usize] = None;
        }
    }
}

/// Reading a value that was set gives it back; other registers keep
/// theirs.
pub proof fn lemma_set_get(regs: Seq<Option<u64>>, reg: u16, other: u16, v: u64)
    requires
        regs.len() == 24,
        (reg as int) < 24,
    ensures
        reg_value(with_reg(regs, reg, Some(v)), reg) == Some(v),
        other != reg ==> reg_value(with_reg(regs, reg, Some(v)), other) == reg_value(regs, other),
        reg_value(with_reg(regs, reg, None), reg) is None,
{
}

/// Where `addr` falls in a stack copy that starts at `stack_base`, when an
/// eight-byte value fits there.
pub open spec fn stack_slot(stack_len: int, addr: u64, stack_base: u64) -> Option<int> {
    if stack_base <= addr && addr - stack_base + 8 <= stack_len {
        Some(addr - stack_base)
    } else {
        None
    }
}

/// Reads the little-endian `u64` at address `addr` of a stack copy whose
/// first byte is at `stack_base`.
pub fn read_stack_u64(stack: &[u8], addr: u64, stack_base: u64) -> (r: Result<u64, UnwindError>)
    ensures
        match stack_slot(stack@.len() as int, addr, stack_base) {
            Some(off) => r == Ok::<u64, UnwindError>(
                spec_u64_from_le_bytes(stack@.subrange(off, off + 8)),
            ),
            None => r == Err::<u64, UnwindError>(UnwindError::StackReadFailed { address: addr }),
        },
{
    if addr < stack_base {
        return Err(UnwindError::StackReadFailed { address: addr });
    }
    let offset: u64 = addr - stack_base;
    let len: usize = stack.len();
    if offset > len as u64 || (len as u64) - offset < 8 {
        return Err(UnwindError::StackReadFailed { address: addr });
    }
    let off: usize = offset as usize;
    let bytes = slice_subrange(stack, off, off + 8);
    Ok(u64_from_le_bytes(bytes))
}

/// How the canonical frame address of a frame is computed.
#[derive(Debug, Clone, Copy, PartialEq, Eq, Structural)]
pub enum CfaRule {
    /// The value of a register plus an offset.
    RegisterAndOffset { register: u16, offset: i64 },
    /// A DWARF expression.
    Expression,
}

/// Where the caller's value of a register is found.
#[derive(Debug, Clone, PartialEq, Eq)]
pub enum RegisterRule {
    /// The register has no value in the caller.
    Undefined,
    /// The caller's value is the callee's.
    SameValue,
    /// The value is saved at the frame address plus an offset.
    Offset(i64),
    /// The value is the frame address plus an offset.
    ValOffset(i64),
    /// The value is in another register of the callee.
    Register(u16),
    /// The value is saved at the address that an expression computes.
    Expression,
    /// The value is what an expression computes.
    ValExpression,
    /// An architecture-specific rule.
    Architectural,
    /// The value is a constant.
    Constant(u64),
    /// A rule of another kind; its description.
    Unsupported(String),
}

/// The unwind rules of one frame: the frame address rule and, in order,
/// the rule of each register that has one.
#[derive(Debug, Clone)]
pub struct UnwindRow {
    pub cfa: CfaRule,
    pub registers: Vec<(u16, RegisterRule)>,
}

/// `x + y` modulo 2^64.
pub open spec fn add_signed(x: u64, y: i64) -> u64 {
    if x + y > u64::MAX {
        (x + y - 0x1_0000_0000_0000_0000) as u64
    } else if x + y < 0 {
        (x + y + 0x1_0000_0000_0000_0000) as u64
    } else {
        (x + y) as u64
    }
}

fn offset_address(x: u64, y: i64) -> (r: u64)
    ensures
        r == add_signed(x, y),
{
    x.wrapping_add_signed(y)
}

/// The error of a rule that cannot be applied, or an expression rule.
pub open spec fn is_invalid_cfi(e: UnwindError, msg: Seq<char>) -> bool {
    e matches UnwindError::InvalidCfi { message } && message@ == msg
}

/// The frame address of a register-and-offset rule, as `Ok`, or the
/// register that is missing, as `Err`; `None` for an expression rule.
pub open spec fn cfa_spec(rule: CfaRule, regs: Seq<Option<u64>>) -> Option<Result<u64, u16>> {
    match rule {
        CfaRule::RegisterAndOffset { register, offset } => match reg_value(regs, register) {
            Some(v) => Some(Ok(add_signed(v, offset))),
            None => Some(Err(register)),
        },
        CfaRule::Expression => None,
    }
}

/// The canonical frame address: the register's value plus the offset
/// (modulo 2^64). An expression rule is not evaluated.
pub fn calculate_cfa(row: &UnwindRow, regs: &UserRegisters, stack: &[u8], stack_base: u64) -> (r:
    Result<u64, UnwindError>)
    ensures
        match cfa_spec(row.cfa, regs@) {
            Some(Ok(cfa)) => r == Ok::<u64, UnwindError>(cfa),
            Some(Err(reg)) => r == Err::<u64, UnwindError>(UnwindError::RegisterNotFound { register: reg }),
            None => r matches Err(e) && is_invalid_cfi(e, "CFA expression evaluation not implemented"@),
        },
{
    match row.cfa {
        CfaRule::RegisterAndOffset { register, offset } => {
            match regs.get(register) {
                Some(v) => Ok(offset_address(v, offset)),
                None => Err(UnwindError::RegisterNotFound { register }),
            }
        },
        CfaRule::Expression => Err(
            UnwindError::InvalidCfi { message: string_of("CFA expression evaluation not implemented") },
        ),
    }
}

/// What a register rule gives for the caller.
pub ghost enum RuleOutcome {
    /// No value: the register is left unknown.
    Skip,
    Value(u64),
    /// Unwinding fails with this error.
    Fails(UnwindError),
    /// Unwinding fails with `InvalidCfi` and this message.
    FailsCfi(Seq<char>),
}

pub open spec fn rule_outcome(
    rule: RegisterRule,
    cur: Seq<Option<u64>>,
    reg: u16,
    stack: Seq<u8>,
    stack_base: u64,
    cfa: u64,
) -> RuleOutcome {
    match rule {
        RegisterRule::Undefined => RuleOutcome::Skip,
        RegisterRule::SameValue => match reg_value(cur, reg) {
            Some(v) => RuleOutcome::Value(v),
            None => RuleOutcome::Fails(UnwindError::RegisterNotFound { register: reg }),
        },
        RegisterRule::Offset(o) => {
            let addr = add_signed(cfa, o);
            match stack_slot(stack.len() as int, addr, stack_base) {
                Some(off) => RuleOutcome::Value(spec_u64_from_le_bytes(stack.subrange(off, off + 8))),
                None => RuleOutcome::Fails(UnwindError::StackReadFailed { address: addr }),
            }
        },
        RegisterRule::ValOffset(o) => RuleOutcome::Value(add_signed(cfa, o)),
        RegisterRule::Register(other) => match reg_value(cur, other) {
            Some(v) => RuleOutcome::Value(v),
            None => RuleOutcome::Fails(UnwindError::RegisterNotFound { register: other }),
        },
        RegisterRule::Expression => RuleOutcome::FailsCfi(
            "Register expression evaluation not implemented"@,
        ),
        RegisterRule::ValExpression => RuleOutcome::FailsCfi(
            "Register value expression evaluation not implemented"@,
        ),
        RegisterRule::Architectural => RuleOutcome::FailsCfi(
            "Architectural register rule not supported"@,
        ),
        RegisterRule::Constant(c) => RuleOutcome::Value(c),
        RegisterRule::Unsupported(d) => RuleOutcome::FailsCfi("Unsupported register rule: "@ + d@),
    }
}

/// The caller's registers after the first `k` rules, or the outcome of the
/// first rule that fails.
pub open spec fn restore_prefix(
    rules: Seq<(u16, RegisterRule)>,
    k: int,
    cur: Seq<Option<u64>>,
    stack: Seq<u8>,
    stack_base: u64,
    cfa: u64,
) -> Result<Seq<Option<u64>>, RuleOutcome>
    decreases k,
{
    if k <= 0 {
        Ok(no_registers())
    } else {
        match restore_prefix(rules, k - 1, cur, stack, stack_base, cfa) {
            Err(f) => Err(f),
            Ok(regs) => {
                let (reg, rule) = rules[k - 1];
                match rule_outcome(rule, cur, reg, stack, stack_base, cfa) {
                    RuleOutcome::Skip => Ok(regs),
                    RuleOutcome::Value(v) => Ok(with_reg(regs, reg, Some(v))),
                    f => Err(f),
                }
            },
        }
    }
}

proof fn lemma_restore_sticky(
    rules: Seq<(u16, RegisterRule)>,
    k: int,
    n: int,
    cur: Seq<Option<u64>>,
    stack: Seq<u8>,
    stack_base: u64,
    cfa: u64,
)
    requires
        0 <= k <= n,
    ensures
        restore_prefix(rules, k, cur, stack, stack_base, cfa) is Err ==> restore_prefix(
            rules,
            n,
            cur,
            stack,
            stack_base,
            cfa,
        ) == restore_prefix(rules, k, cur, stack, stack_base, cfa),
    decreases n - k,
{
    if k < n {
        lemma_restore_sticky(rules, k, n - 1, cur, stack, stack_base, cfa);
    }
}

/// Whether an error is the one that a failed rule outcome stands for.
pub open spec fn outcome_error(f: RuleOutcome, e: UnwindError) -> bool {
    match f {
        RuleOutcome::Fails(x) => e == x,
        RuleOutcome::FailsCfi(m) => is_invalid_cfi(e, m),
        _ => false,
    }
}

fn rule_error(rule: &RegisterRule) -> (e: UnwindError)
    requires
        rule is Expression || rule is ValExpression || rule is Architectural || rule is Unsupported,
    ensures
        outcome_error(rule_outcome(*rule, no_registers(), 0, Seq::empty(), 0, 0), e),
{
    match rule {
        RegisterRule::Expression => UnwindError::InvalidCfi {
            message: string_of("Register expression evaluation not implemented"),
        },
        RegisterRule::ValExpression => UnwindError::InvalidCfi {
            message: string_of("Register value expression evaluation not implemented"),
        },
        RegisterRule::Architectural => UnwindError::InvalidCfi {
            message: string_of("Architectural register rule not supported"),
        },
        RegisterRule::Unsupported(d) => {
            let mut v: Vec<char> = Vec::new();
            crate::text::push_str(&mut v, "Unsupported register rule: ");
            crate::text::push_str(&mut v, d.as_str());
            UnwindError::InvalidCfi { message: crate::text::chars_to_string(v.as_slice()) }
        },
        _ => UnwindError::InvalidCfi { message: String::new() },
    }
}

/// The caller's registers: each rule in order gives a register its value,
/// the first rule that fails fails the whole, and the stack pointer is set
/// to the frame address.
pub fn restore_registers(
    row: &UnwindRow,
    current_regs: &UserRegisters,
    stack: &[u8],
    stack_base: u64,
    cfa: u64,
) -> (r: Result<UserRegisters, UnwindError>)
    ensures
        match restore_prefix(
            row.registers@,
            row.registers@.len() as int,
            current_regs@,
            stack@,
            stack_base,
            cfa,
        ) {
            Ok(regs) => r matches Ok(u) && u@ == with_reg(regs, REG_SP, Some(cfa)),
            Err(f) => r matches Err(e) && outcome_error(f, e),
        },
{
    let mut caller = UserRegisters::new();
    let n: usize = row.registers.len();
    let mut i: usize = 0;
    while i < n
        invariant
            0 <= i <= n,
            n == row.registers@.len(),
            restore_prefix(row.registers@, i as int, current_regs@, stack@, stack_base, cfa) == Ok::<
                Seq<Option<u64>>,
                RuleOutcome,
            >(caller@),
        decreases n - i,
    {
        proof {
            lemma_restore_sticky(row.registers@, i + 1, n as int, current_regs@, stack@, stack_base, cfa);
        }
        let (reg, rule) = &row.registers[i];
        let reg: u16 = *reg;
        let value: u64 = match rule {
            RegisterRule::Undefined => {
                i = i + 1;
                continue;
            },
            RegisterRule::SameValue => match current_regs.get(reg) {
                Some(v) => v,
                None => {
                    return Err(UnwindError::RegisterNotFound { register: reg });
                },
            },
            RegisterRule::Offset(o) => {
                let addr = offset_address(cfa, *o);
                match read_stack_u64(stack, addr, stack_base) {
                    Ok(v) => v,
                    Err(e) => {
                        return Err(e);
                    },
                }
            },
            RegisterRule::ValOffset(o) => offset_address(cfa, *o),
            RegisterRule::Register(other) => match current_regs.get(*other) {
                Some(v) => v,
                None => {
                    return Err(UnwindError::RegisterNotFound { register: *other });
                },
            },
            RegisterRule::Constant(c) => *c,
            _ => {
                return Err(rule_error(rule));
            },
        };
        caller.set(reg, value);
        i = i + 1;
    }
    caller.set_sp(cfa);
    Ok(caller)
}

/// One step of unwinding from the rules of the current frame: the frame
/// address, then the caller's registers; `Ok(None)` at the end of the
/// stack, else the caller's return address less one (not below zero), with
/// `regs` replaced by the caller's registers.
pub fn unwind_frame(row: &UnwindRow, regs: &mut UserRegisters, stack: &[u8], stack_base: u64) -> (r:
    Result<Option<u64>, UnwindError>)
    ensures
        match cfa_spec(row.cfa, old(regs)@) {
            None => r matches Err(e) && is_invalid_cfi(e, "CFA expression evaluation not implemented"@)
                && final(regs)@ == old(regs)@,
            Some(Err(reg)) => r == Err::<Option<u64>, UnwindError>(
                UnwindError::RegisterNotFound { register: reg },
            ) && final(regs)@ == old(regs)@,
            Some(Ok(cfa)) => match restore_prefix(
                row.registers@,
                row.registers@.len() as int,
                old(regs)@,
                stack@,
                stack_base,
                cfa,
            ) {
                Err(f) => (r matches Err(e) && outcome_error(f, e)) && final(regs)@ == old(regs)@,
                Ok(c) => {
                    let caller = with_reg(c, REG_SP, Some(cfa));
                    match reg_value(caller, REG_IP) {
                        Some(ra) => if ra == 0 {
                            r == Ok::<Option<u64>, UnwindError>(None) && final(regs)@ == old(regs)@
                        } else {
                            r == Ok::<Option<u64>, UnwindError>(Some((ra - 1) as u64))
                                && final(regs)@ == caller
                        },
                        None => r == Ok::<Option<u64>, UnwindError>(None) && final(regs)@ == old(
                            regs,
                        )@,
                    }
                },
            },
        },
{
    let cfa = match calculate_cfa(row, regs, stack, stack_base) {
        Ok(c) => c,
        Err(e) => {
            return Err(e);
        },
    };
    let caller = match restore_registers(row, regs, stack, stack_base, cfa) {
        Ok(c) => c,
        Err(e) => {
            return Err(e);
        },
    };
    let ra = match caller.ip() {
        Some(a) => a,
        None => {
            return Ok(None);
        },
    };
    if ra == 0 {
        return Ok(None);
    }
    *regs = caller;
    Ok(Some(ra - 1))
}

/// Where one step of unwinding leads: the next instruction pointer and
/// the caller's registers, or `None` where the walk stops (a rule that
/// cannot be applied, or the end of the stack).
pub open spec fn frame_outcome(row: UnwindRow, regs: Seq<Option<u64>>, stack: Seq<u8>, stack_base: u64) -> Option<
    (u64, Seq<Option<u64>>),
> {
    match cfa_spec(row.cfa, regs) {
        Some(Ok(cfa)) => match restore_prefix(row.registers@, row.registers@.len() as int, regs, stack, stack_base, cfa) {
            Ok(c) => {
                let caller = with_reg(c, REG_SP, Some(cfa));
                match reg_value(caller, REG_IP) {
                    Some(ra) => if ra == 0 {
                        None
                    } else {
                        Some(((ra - 1) as u64, caller))
                    },
                    None => None,
                }
            },
            Err(_) => None,
        },
        _ => None,
    }
}

/// What is known of the frame at an instruction pointer.
pub enum FrameRules {
    /// No binary with unwind information covers it.
    NoUnwindInfo,
    /// The unwind information could not be read for it.
    Unreadable(UnwindError),
    /// The rules of the frame.
    Rules(UnwindRow),
}

/// A walk up the stack: the call chain so far, from the sampled
/// instruction pointer, and the registers of the current frame.
pub struct StackWalk {
    callchain: Vec<u64>,
    regs: UserRegisters,
    depth: usize,
    done: bool,
}

impl StackWalk {
    pub closed spec fn chain(&self) -> Seq<u64> {
        self.callchain@
    }

    pub closed spec fn registers(&self) -> Seq<Option<u64>> {
        self.regs@
    }

    pub closed spec fn steps(&self) -> nat {
        self.depth as nat
    }

    pub closed spec fn finished(&self) -> bool {
        self.done
    }

    /// A walk from `ip` with the sampled registers.
    pub fn new(ip: u64, regs: UserRegisters) -> (w: Self)
        ensures
            w.chain() == seq![ip],
            w.registers() == regs@,
            w.steps() == 0,
            !w.finished(),
    {
        let mut callchain: Vec<u64> = Vec::new();
        callchain.push(ip);
        StackWalk { callchain, regs, depth: 0, done: false }
    }

    /// The instruction pointer whose frame is to be unwound next: the last
    /// of the chain, until the walk is finished or has taken
    /// `MAX_STACK_DEPTH` steps.
    pub fn next_ip(&self) -> (r: Option<u64>)
        requires
            self.chain().len() > 0,
        ensures
            r == (if self.finished() || self.steps() >= MAX_STACK_DEPTH {
                None
            } else {
                Some(self.chain().last())
            }),
    {
        if self.done || self.depth >= MAX_STACK_DEPTH {
            None
        } else {
            Some(self.callchain[self.callchain.len() - 1])
        }
    }

    /// Unwinds the current frame with its rules. Without unwind
    /// information the walk fails with `NoEhFrame`; with unreadable
    /// information it stops; with rules it moves to the caller as
    /// `frame_outcome` says, or stops.
    pub fn step(&mut self, rules: FrameRules, stack: &[u8], stack_base: u64) -> (r: Result<(), UnwindError>)
        requires
            old(self).chain().len() > 0,
            !old(self).finished(),
            old(self).steps() < MAX_STACK_DEPTH,
        ensures
            final(self).steps() == old(self).steps() + 1,
            final(self).chain().len() > 0,
            match rules {
                FrameRules::NoUnwindInfo => r == Err::<(), UnwindError>(
                    UnwindError::NoEhFrame { address: old(self).chain().last() },
                ) && final(self).finished() && final(self).chain() == old(self).chain(),
                FrameRules::Unreadable(_) => r is Ok && final(self).finished() && final(self).chain()
                    == old(self).chain(),
                FrameRules::Rules(row) => r is Ok && match frame_outcome(
                    row,
                    old(self).registers(),
                    stack@,
                    stack_base,
                ) {
                    Some((ip, caller)) => !final(self).finished() && final(self).chain() == old(
                        self,
                    ).chain().push(ip) && final(self).registers() == caller,
                    None => final(self).finished() && final(self).chain() == old(self).chain(),
                },
            },
    {
        self.depth = self.depth + 1;
        match rules {
            FrameRules::NoUnwindInfo => {
                self.done = true;
                let address = self.callchain[self.callchain.len() - 1];
                Err(UnwindError::NoEhFrame { address })
            },
            FrameRules::Unreadable(_) => {
                self.done = true;
                Ok(())
            },
            FrameRules::Rules(row) => {
                match unwind_frame(&row, &mut self.regs, stack, stack_base) {
                    Ok(Some(next)) => {
                        self.callchain.push(next);
                    },
                    _ => {
                        self.done = true;
                    },
                }
                Ok(())
            },
        }
    }

    /// The call chain found.
    pub fn into_callchain(self) -> (r: Vec<u64>)
        ensures
            r@ == self.chain(),
    {
        self.callchain
    }
}

} // verus!
