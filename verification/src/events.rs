//! Event names: parsing `cpu-cycles:u`, `L1-dcache-load-misses`, `r1a8`,
//! `sched:sched_switch` and the like into events with privilege modifiers,
//! and formatting events back into names.
//!
//! # Modifiers
//!
//! - `:u` - count in user space only (exclude kernel)
//! - `:k` - count in kernel space only (exclude user)
//! - `:h` - hypervisor only (exclude user and kernel)
//! - `:p` - precise sampling

use vstd::prelude::*;
use crate::text::{
    chars_eq_str, chars_to_string, contains_seq, fmt_hex, find_char, first_index, has_prefix,
    hex_chars, is_first_index, lowercase_chars, to_lower, is_ascii_seq, lower_all, lemma_lower_all_add, name_char,
    lemma_lower_fixed, lemma_plain_text, parse_uint_chars, parse_uint_max, push_all, push_str,
    split, split_chars, str_to_chars, strip_prefix_str, sub_chars, trim, trim_chars,
};
use crate::tracepoint::{full_name_spec, table_lookup, TracepointId, TracepointTable};

verus! {

/// Hardware counters (`PERF_COUNT_HW_*`).
#[allow(non_camel_case_types)]
#[derive(Debug, Clone, Copy, PartialEq, Eq, Structural)]
pub enum Hardware {
    CPU_CYCLES,
    INSTRUCTIONS,
    CACHE_REFERENCES,
    CACHE_MISSES,
    BRANCH_INSTRUCTIONS,
    BRANCH_MISSES,
    BUS_CYCLES,
    STALLED_CYCLES_FRONTEND,
    STALLED_CYCLES_BACKEND,
    REF_CPU_CYCLES,
}

/// Software counters (`PERF_COUNT_SW_*`).
#[allow(non_camel_case_types)]
#[derive(Debug, Clone, Copy, PartialEq, Eq, Structural)]
pub enum Software {
    CPU_CLOCK,
    TASK_CLOCK,
    PAGE_FAULTS,
    CONTEXT_SWITCHES,
    CPU_MIGRATIONS,
    PAGE_FAULTS_MIN,
    PAGE_FAULTS_MAJ,
    ALIGNMENT_FAULTS,
    EMULATION_FAULTS,
    DUMMY,
    BPF_OUTPUT,
    CGROUP_SWITCHES,
}

/// Which cache a cache event counts (`PERF_COUNT_HW_CACHE_*`).
#[allow(non_camel_case_types)]
#[derive(Debug, Clone, Copy, PartialEq, Eq, Structural)]
pub enum CacheId {
    L1D,
    L1I,
    LL,
    DTLB,
    ITLB,
    BPU,
    NODE,
}

/// The cache operation (`PERF_COUNT_HW_CACHE_OP_*`).
#[allow(non_camel_case_types)]
#[derive(Debug, Clone, Copy, PartialEq, Eq, Structural)]
pub enum CacheOp {
    READ,
    WRITE,
    PREFETCH,
}

/// The cache result (`PERF_COUNT_HW_CACHE_RESULT_*`).
#[allow(non_camel_case_types)]
#[derive(Debug, Clone, Copy, PartialEq, Eq, Structural)]
pub enum CacheResult {
    ACCESS,
    MISS,
}

/// A hardware cache event.
#[derive(Debug, Clone, Copy, PartialEq, Eq, Structural)]
pub struct Cache {
    pub which: CacheId,
    pub operation: CacheOp,
    pub result: CacheResult,
}

/// A raw, CPU-specific event given by its configuration values.
#[derive(Debug, Clone, Copy, PartialEq, Eq, Structural)]
pub struct Raw {
    pub config: u64,
    pub config1: u64,
    pub config2: u64,
}

impl Raw {
    /// A raw event with the given config and no extra config words.
    pub fn new(config: u64) -> (r: Self)
        ensures
            r == (Raw { config, config1: 0, config2: 0 }),
    {
        Raw { config, config1: 0, config2: 0 }
    }
}

/// The kernel's number for a hardware counter.
pub open spec fn hardware_config(h: Hardware) -> u64 {
    match h {
        Hardware::CPU_CYCLES => 0,
        Hardware::INSTRUCTIONS => 1,
        Hardware::CACHE_REFERENCES => 2,
        Hardware::CACHE_MISSES => 3,
        Hardware::BRANCH_INSTRUCTIONS => 4,
        Hardware::BRANCH_MISSES => 5,
        Hardware::BUS_CYCLES => 6,
        Hardware::STALLED_CYCLES_FRONTEND => 7,
        Hardware::STALLED_CYCLES_BACKEND => 8,
        Hardware::REF_CPU_CYCLES => 9,
    }
}

/// The kernel's number for a software counter.
pub open spec fn software_config(s: Software) -> u64 {
    match s {
        Software::CPU_CLOCK => 0,
        Software::TASK_CLOCK => 1,
        Software::PAGE_FAULTS => 2,
        Software::CONTEXT_SWITCHES => 3,
        Software::CPU_MIGRATIONS => 4,
        Software::PAGE_FAULTS_MIN => 5,
        Software::PAGE_FAULTS_MAJ => 6,
        Software::ALIGNMENT_FAULTS => 7,
        Software::EMULATION_FAULTS => 8,
        Software::DUMMY => 9,
        Software::BPF_OUTPUT => 10,
        Software::CGROUP_SWITCHES => 11,
    }
}

/// The kernel's `(which | op << 8 | result << 16)` number of a cache event.
pub open spec fn cache_config(c: Cache) -> u64 {
    let w: u64 = match c.which {
        CacheId::L1D => 0,
        CacheId::L1I => 1,
        CacheId::LL => 2,
        CacheId::DTLB => 3,
        CacheId::ITLB => 4,
        CacheId::BPU => 5,
        CacheId::NODE => 6,
    };
    let o: u64 = match c.operation {
        CacheOp::READ => 0,
        CacheOp::WRITE => 1,
        CacheOp::PREFETCH => 2,
    };
    let r: u64 = match c.result {
        CacheResult::ACCESS => 0,
        CacheResult::MISS => 1,
    };
    (w + o * 256 + r * 65536) as u64
}

impl Hardware {
    /// The kernel's number for this counter.
    pub fn config(&self) -> (r: u64)
        ensures
            r == hardware_config(*self),
    {
        match self {
            Hardware::CPU_CYCLES => 0,
            Hardware::INSTRUCTIONS => 1,
            Hardware::CACHE_REFERENCES => 2,
            Hardware::CACHE_MISSES => 3,
            Hardware::BRANCH_INSTRUCTIONS => 4,
            Hardware::BRANCH_MISSES => 5,
            Hardware::BUS_CYCLES => 6,
            Hardware::STALLED_CYCLES_FRONTEND => 7,
            Hardware::STALLED_CYCLES_BACKEND => 8,
            Hardware::REF_CPU_CYCLES => 9,
        }
    }
}

impl Software {
    /// The kernel's number for this counter.
    pub fn config(&self) -> (r: u64)
        ensures
            r == software_config(*self),
    {
        match self {
            Software::CPU_CLOCK => 0,
            Software::TASK_CLOCK => 1,
            Software::PAGE_FAULTS => 2,
            Software::CONTEXT_SWITCHES => 3,
            Software::CPU_MIGRATIONS => 4,
            Software::PAGE_FAULTS_MIN => 5,
            Software::PAGE_FAULTS_MAJ => 6,
            Software::ALIGNMENT_FAULTS => 7,
            Software::EMULATION_FAULTS => 8,
            Software::DUMMY => 9,
            Software::BPF_OUTPUT => 10,
            Software::CGROUP_SWITCHES => 11,
        }
    }
}

impl Cache {
    /// The kernel's number for this cache event.
    pub fn config(&self) -> (r: u64)
        ensures
            r == cache_config(*self),
    {
        let w: u64 = match self.which {
            CacheId::L1D => 0,
            CacheId::L1I => 1,
            CacheId::LL => 2,
            CacheId::DTLB => 3,
            CacheId::ITLB => 4,
            CacheId::BPU => 5,
            CacheId::NODE => 6,
        };
        let o: u64 = match self.operation {
            CacheOp::READ => 0,
            CacheOp::WRITE => 1,
            CacheOp::PREFETCH => 2,
        };
        let r: u64 = match self.result {
            CacheResult::ACCESS => 0,
            CacheResult::MISS => 1,
        };
        w + o * 256 + r * 65536
    }
}

// ---------------------------------------------------------------------
// Modifiers
// ---------------------------------------------------------------------

/// Event modifiers that control privilege level filtering.
#[derive(Debug, Clone, Copy, PartialEq, Eq, Structural)]
pub struct EventModifiers {
    /// Exclude user-space events (only count kernel)
    pub exclude_user: bool,
    /// Exclude kernel-space events (only count user)
    pub exclude_kernel: bool,
    /// Exclude hypervisor events
    pub exclude_hv: bool,
    /// Use precise sampling (PEBS on Intel)
    pub precise: bool,
}

/// All four modifiers off.
pub open spec fn no_modifiers() -> EventModifiers {
    EventModifiers { exclude_user: false, exclude_kernel: false, exclude_hv: false, precise: false }
}

/// The effect of one modifier character; `None` for an unknown one.
pub open spec fn apply_modifier(m: EventModifiers, c: char) -> Option<EventModifiers> {
    if c == 'u' {
        Some(EventModifiers { exclude_kernel: true, ..m })
    } else if c == 'k' {
        Some(EventModifiers { exclude_user: true, ..m })
    } else if c == 'h' {
        Some(EventModifiers { exclude_user: true, exclude_kernel: true, ..m })
    } else if c == 'p' {
        Some(EventModifiers { precise: true, ..m })
    } else {
        None
    }
}

/// The modifiers that the characters of `s` set, and the characters that
/// are not modifiers, in order.
pub open spec fn parse_modifiers_spec(s: Seq<char>) -> (EventModifiers, Seq<char>)
    decreases s.len(),
{
    if s.len() == 0 {
        (no_modifiers(), Seq::empty())
    } else {
        let (m, u) = parse_modifiers_spec(s.drop_last());
        match apply_modifier(m, s.last()) {
            Some(m2) => (m2, u),
            None => (m, u.push(s.last())),
        }
    }
}

/// The suffix (`:u`, `:k`, `:h`, with `p` appended for precise) that names
/// a set of modifiers; empty when none is shown.
pub open spec fn suffix_chars(m: EventModifiers) -> Seq<char> {
    let a: Seq<char> = if m.exclude_kernel && !m.exclude_user {
        seq!['u']
    } else {
        Seq::empty()
    };
    let b: Seq<char> = if m.exclude_user && !m.exclude_kernel {
        seq!['k']
    } else {
        Seq::empty()
    };
    let c: Seq<char> = if m.exclude_user && m.exclude_kernel {
        seq!['h']
    } else {
        Seq::empty()
    };
    let d: Seq<char> = if m.precise {
        seq!['p']
    } else {
        Seq::empty()
    };
    a + b + c + d
}

/// The suffix string of a set of modifiers.
pub open spec fn suffix_spec(m: EventModifiers) -> Seq<char> {
    if suffix_chars(m).len() > 0 {
        seq![':'] + suffix_chars(m)
    } else {
        Seq::empty()
    }
}

impl EventModifiers {
    /// Create a new empty modifiers struct (all fields false).
    pub fn new() -> (r: Self)
        ensures
            r == no_modifiers(),
    {
        EventModifiers { exclude_user: false, exclude_kernel: false, exclude_hv: false, precise: false }
    }

    /// Parse modifiers from a string like "uk", "uhp", etc.
    ///
    /// Returns the parsed modifiers and any unrecognized characters.
    pub fn parse(s: &str) -> (r: (Self, String))
        ensures
            (r.0, r.1@) == parse_modifiers_spec(s@),
    {
        let v = str_to_chars(s);
        let (m, u) = parse_modifier_chars(v.as_slice());
        (m, chars_to_string(u.as_slice()))
    }

    /// Check if any modifiers are set.
    pub fn is_empty(&self) -> (r: bool)
        ensures
            r == (!self.exclude_user && !self.exclude_kernel && !self.exclude_hv && !self.precise),
    {
        !self.exclude_user && !self.exclude_kernel && !self.exclude_hv && !self.precise
    }

    /// Get a string representation of the modifiers (`:u`, `:hp`, ...).
    pub fn to_suffix(&self) -> (r: String)
        ensures
            r@ == suffix_spec(*self),
    {
        let v = self.suffix_vec();
        chars_to_string(v.as_slice())
    }

    fn suffix_vec(&self) -> (r: Vec<char>)
        ensures
            r@ == suffix_spec(*self),
    {
        let mut s: Vec<char> = Vec::new();
        if self.exclude_kernel && !self.exclude_user {
            s.push('u');
        }
        if self.exclude_user && !self.exclude_kernel {
            s.push('k');
        }
        if self.exclude_user && self.exclude_kernel {
            s.push('h');
        }
        if self.precise {
            s.push('p');
        }
        assert(s@ =~= suffix_chars(*self));
        if s.len() > 0 {
            let mut r: Vec<char> = Vec::new();
            r.push(':');
            push_all(&mut r, s.as_slice());
            r
        } else {
            Vec::new()
        }
    }
}

fn parse_modifier_chars(v: &[char]) -> (r: (EventModifiers, Vec<char>))
    ensures
        (r.0, r.1@) == parse_modifiers_spec(v@),
{
    let mut m = EventModifiers::new();
    let mut unknown: Vec<char> = Vec::new();
    let mut i: usize = 0;
    while i < v.len()
        invariant
            i <= v@.len(),
            (m, unknown@) == parse_modifiers_spec(v@.subrange(0, i as int)),
        decreases v@.len() - i,
    {
        assert(v@.subrange(0, i + 1).drop_last() == v@.subrange(0, i as int));
        let c = v[i];
        if c == 'u' {
            m.exclude_kernel = true;
        } else if c == 'k' {
            m.exclude_user = true;
        } else if c == 'h' {
            m.exclude_user = true;
            m.exclude_kernel = true;
        } else if c == 'p' {
            m.precise = true;
        } else {
            unknown.push(c);
        }
        i = i + 1;
    }
    assert(v@.subrange(0, v@.len() as int) == v@);
    (m, unknown)
}

// ---------------------------------------------------------------------
// Events
// ---------------------------------------------------------------------

/// A unified event type that can be hardware, software, cache, raw, or
/// tracepoint events.
#[derive(Debug, Clone, PartialEq, Eq)]
pub enum PerfEvent {
    Hardware(Hardware),
    Software(Software),
    Cache(Cache),
    Raw(Raw),
    Tracepoint(TracepointId),
}

/// What an event is, with text as character sequences.
pub ghost enum EventView {
    Hardware(Hardware),
    Software(Software),
    Cache(Cache),
    Raw(Raw),
    Tracepoint(Seq<char>, Seq<char>, u64),
}

impl View for PerfEvent {
    type V = EventView;

    open spec fn view(&self) -> EventView {
        match self {
            PerfEvent::Hardware(h) => EventView::Hardware(*h),
            PerfEvent::Software(s) => EventView::Software(*s),
            PerfEvent::Cache(c) => EventView::Cache(*c),
            PerfEvent::Raw(r) => EventView::Raw(*r),
            PerfEvent::Tracepoint(t) => EventView::Tracepoint(t.subsystem@, t.name@, t.id),
        }
    }
}

impl PerfEvent {
    pub fn is_hardware(&self) -> (r: bool)
        ensures
            r == (self is Hardware),
    {
        match self {
            PerfEvent::Hardware(_) => true,
            _ => false,
        }
    }

    pub fn is_software(&self) -> (r: bool)
        ensures
            r == (self is Software),
    {
        match self {
            PerfEvent::Software(_) => true,
            _ => false,
        }
    }

    pub fn is_cache(&self) -> (r: bool)
        ensures
            r == (self is Cache),
    {
        match self {
            PerfEvent::Cache(_) => true,
            _ => false,
        }
    }

    pub fn is_raw(&self) -> (r: bool)
        ensures
            r == (self is Raw),
    {
        match self {
            PerfEvent::Raw(_) => true,
            _ => false,
        }
    }

    pub fn is_tracepoint(&self) -> (r: bool)
        ensures
            r == (self is Tracepoint),
    {
        match self {
            PerfEvent::Tracepoint(_) => true,
            _ => false,
        }
    }
}

/// A parsed event with optional modifiers.
#[derive(Debug, Clone, PartialEq, Eq)]
pub struct ParsedEvent {
    /// The underlying performance event
    pub event: PerfEvent,
    /// Modifiers for this event
    pub modifiers: EventModifiers,
}

impl ParsedEvent {
    /// Create a new parsed event with no modifiers.
    pub fn new(event: PerfEvent) -> (r: Self)
        ensures
            r.event == event,
            r.modifiers == no_modifiers(),
    {
        ParsedEvent { event, modifiers: EventModifiers::new() }
    }

    /// Create a parsed event with specific modifiers.
    pub fn with_modifiers(event: PerfEvent, modifiers: EventModifiers) -> (r: Self)
        ensures
            r.event == event,
            r.modifiers == modifiers,
    {
        ParsedEvent { event, modifiers }
    }
}

// ---------------------------------------------------------------------
// Name tables
// ---------------------------------------------------------------------

/// The hardware counter that a lower-case name denotes.
pub open spec fn hardware_by_name(n: Seq<char>) -> Option<Hardware> {
    if n == "cpu-cycles"@ || n == "cycles"@ {
        Some(Hardware::CPU_CYCLES)
    } else if n == "instructions"@ || n == "instructions-retired"@ {
        Some(Hardware::INSTRUCTIONS)
    } else if n == "cache-references"@ {
        Some(Hardware::CACHE_REFERENCES)
    } else if n == "cache-misses"@ {
        Some(Hardware::CACHE_MISSES)
    } else if n == "branch-instructions"@ || n == "branches"@ {
        Some(Hardware::BRANCH_INSTRUCTIONS)
    } else if n == "branch-misses"@ {
        Some(Hardware::BRANCH_MISSES)
    } else if n == "bus-cycles"@ {
        Some(Hardware::BUS_CYCLES)
    } else if n == "stalled-cycles-frontend"@ || n == "idle-cycles-frontend"@ {
        Some(Hardware::STALLED_CYCLES_FRONTEND)
    } else if n == "stalled-cycles-backend"@ || n == "idle-cycles-backend"@ {
        Some(Hardware::STALLED_CYCLES_BACKEND)
    } else if n == "ref-cpu-cycles"@ || n == "ref-cycles"@ || n == "cpu-cycles-ref"@ {
        Some(Hardware::REF_CPU_CYCLES)
    } else {
        None
    }
}

/// The software counter that a lower-case name denotes.
pub open spec fn software_by_name(n: Seq<char>) -> Option<Software> {
    if n == "cpu-clock"@ {
        Some(Software::CPU_CLOCK)
    } else if n == "task-clock"@ {
        Some(Software::TASK_CLOCK)
    } else if n == "page-faults"@ || n == "faults"@ {
        Some(Software::PAGE_FAULTS)
    } else if n == "context-switches"@ || n == "cs"@ {
        Some(Software::CONTEXT_SWITCHES)
    } else if n == "cpu-migrations"@ {
        Some(Software::CPU_MIGRATIONS)
    } else if n == "minor-faults"@ {
        Some(Software::PAGE_FAULTS_MIN)
    } else if n == "major-faults"@ {
        Some(Software::PAGE_FAULTS_MAJ)
    } else if n == "alignment-faults"@ {
        Some(Software::ALIGNMENT_FAULTS)
    } else if n == "emulation-faults"@ {
        Some(Software::EMULATION_FAULTS)
    } else if n == "dummy"@ {
        Some(Software::DUMMY)
    } else if n == "bpf-output"@ {
        Some(Software::BPF_OUTPUT)
    } else if n == "cgroup-switches"@ {
        Some(Software::CGROUP_SWITCHES)
    } else {
        None
    }
}

/// `n` without the prefix `p`, when it has it.
pub open spec fn after_prefix(n: Seq<char>, p: Seq<char>) -> Option<Seq<char>> {
    if has_prefix(n, p) {
        Some(n.subrange(p.len() as int, n.len() as int))
    } else {
        None
    }
}

/// The cache named at the start of `n`, and what follows its prefix.
pub open spec fn cache_id_by_name(n: Seq<char>) -> Option<(CacheId, Seq<char>)> {
    if has_prefix(n, "L1-dcache-"@) {
        Some((CacheId::L1D, after_prefix(n, "L1-dcache-"@).unwrap()))
    } else if has_prefix(n, "l1-dcache-"@) {
        Some((CacheId::L1D, after_prefix(n, "l1-dcache-"@).unwrap()))
    } else if has_prefix(n, "L1-d-"@) {
        Some((CacheId::L1D, after_prefix(n, "L1-d-"@).unwrap()))
    } else if has_prefix(n, "l1-d-"@) {
        Some((CacheId::L1D, after_prefix(n, "l1-d-"@).unwrap()))
    } else if has_prefix(n, "L1-icache-"@) {
        Some((CacheId::L1I, after_prefix(n, "L1-icache-"@).unwrap()))
    } else if has_prefix(n, "l1-icache-"@) {
        Some((CacheId::L1I, after_prefix(n, "l1-icache-"@).unwrap()))
    } else if has_prefix(n, "L1-i-"@) {
        Some((CacheId::L1I, after_prefix(n, "L1-i-"@).unwrap()))
    } else if has_prefix(n, "l1-i-"@) {
        Some((CacheId::L1I, after_prefix(n, "l1-i-"@).unwrap()))
    } else if has_prefix(n, "LLC-"@) {
        Some((CacheId::LL, after_prefix(n, "LLC-"@).unwrap()))
    } else if has_prefix(n, "llc-"@) {
        Some((CacheId::LL, after_prefix(n, "llc-"@).unwrap()))
    } else if has_prefix(n, "dTLB-"@) {
        Some((CacheId::DTLB, after_prefix(n, "dTLB-"@).unwrap()))
    } else if has_prefix(n, "dtlb-"@) {
        Some((CacheId::DTLB, after_prefix(n, "dtlb-"@).unwrap()))
    } else if has_prefix(n, "iTLB-"@) {
        Some((CacheId::ITLB, after_prefix(n, "iTLB-"@).unwrap()))
    } else if has_prefix(n, "itlb-"@) {
        Some((CacheId::ITLB, after_prefix(n, "itlb-"@).unwrap()))
    } else if has_prefix(n, "branch-"@) {
        Some((CacheId::BPU, after_prefix(n, "branch-"@).unwrap()))
    } else if has_prefix(n, "node-"@) {
        Some((CacheId::NODE, after_prefix(n, "node-"@).unwrap()))
    } else {
        None
    }
}

/// The operation and result that the rest of a cache event name denotes.
pub open spec fn cache_op_by_name(r: Seq<char>) -> Option<(CacheOp, CacheResult)> {
    if r == "loads"@ || r == "read-accesses"@ || r == "reads"@ {
        Some((CacheOp::READ, CacheResult::ACCESS))
    } else if r == "load-misses"@ || r == "read-misses"@ {
        Some((CacheOp::READ, CacheResult::MISS))
    } else if r == "stores"@ || r == "write-accesses"@ || r == "writes"@ {
        Some((CacheOp::WRITE, CacheResult::ACCESS))
    } else if r == "store-misses"@ || r == "write-misses"@ {
        Some((CacheOp::WRITE, CacheResult::MISS))
    } else if r == "prefetches"@ || r == "prefetch-accesses"@ {
        Some((CacheOp::PREFETCH, CacheResult::ACCESS))
    } else if r == "prefetch-misses"@ {
        Some((CacheOp::PREFETCH, CacheResult::MISS))
    } else if r == "accesses"@ {
        Some((CacheOp::READ, CacheResult::ACCESS))
    } else if r == "misses"@ {
        Some((CacheOp::READ, CacheResult::MISS))
    } else {
        None
    }
}

/// The cache event that a name denotes.
pub open spec fn cache_by_name(n: Seq<char>) -> Option<Cache> {
    match cache_id_by_name(n) {
        Some((id, rest)) => match cache_op_by_name(rest) {
            Some((op, res)) => Some(Cache { which: id, operation: op, result: res }),
            None => None,
        },
        None => None,
    }
}

/// The config of a raw event name `rNNNN` / `RNNNN`, hexadecimal with an
/// optional `0x`.
pub open spec fn raw_by_name(name: Seq<char>) -> Option<u64> {
    let n = trim(name);
    if n.len() > 0 && (n[0] == 'r' || n[0] == 'R') {
        let h = n.drop_first();
        let digits = if has_prefix(h, "0x"@) {
            h.subrange(2, h.len() as int)
        } else {
            h
        };
        match parse_uint_max(digits, 16, u64::MAX as nat) {
            Some(v) => Some(v as u64),
            None => None,
        }
    } else {
        None
    }
}

/// The `(subsystem, name)` that a `subsystem:name` text asks tracefs for.
pub open spec fn tracepoint_query(name: Seq<char>) -> Option<(Seq<char>, Seq<char>)> {
    match first_index(name, ':') {
        Some(i) => if i > 0 && i + 1 < name.len() {
            Some((name.subrange(0, i), name.subrange(i + 1, name.len() as int)))
        } else {
            None
        },
        None => None,
    }
}

/// The event that a name without modifiers denotes: raw, then hardware,
/// software and cache names (case-insensitive), then a tracepoint that the
/// table knows.
pub open spec fn base_event_spec(name: Seq<char>, table: Seq<(Seq<char>, Seq<char>, u64)>) -> Option<
    EventView,
> {
    let n = trim(name);
    let l = to_lower(n);
    if raw_by_name(n) is Some {
        Some(EventView::Raw(Raw { config: raw_by_name(n).unwrap(), config1: 0, config2: 0 }))
    } else if hardware_by_name(l) is Some {
        Some(EventView::Hardware(hardware_by_name(l).unwrap()))
    } else if software_by_name(l) is Some {
        Some(EventView::Software(software_by_name(l).unwrap()))
    } else if cache_by_name(l) is Some {
        Some(EventView::Cache(cache_by_name(l).unwrap()))
    } else {
        match tracepoint_query(n) {
            Some((s, t)) => match table_lookup(table, s, t) {
                Some(id) => Some(EventView::Tracepoint(s, t, id)),
                None => None,
            },
            None => None,
        }
    }
}

/// Why an event name was refused.
#[derive(Debug, Clone, PartialEq, Eq)]
pub enum EventError {
    /// No event has this name.
    UnknownEvent { name: String },
    /// The text after the colon holds characters that are not modifiers.
    UnknownModifiers { modifiers: String, name: String },
}

/// What an error is, with text as character sequences.
pub ghost enum EventErrorView {
    UnknownEvent(Seq<char>),
    UnknownModifiers(Seq<char>, Seq<char>),
}

impl View for EventError {
    type V = EventErrorView;

    open spec fn view(&self) -> EventErrorView {
        match self {
            EventError::UnknownEvent { name } => EventErrorView::UnknownEvent(name@),
            EventError::UnknownModifiers { modifiers, name } => EventErrorView::UnknownModifiers(
                modifiers@,
                name@,
            ),
        }
    }
}

/// The message of an event error.
pub open spec fn event_error_message(e: EventErrorView) -> Seq<char> {
    match e {
        EventErrorView::UnknownEvent(n) => "Unknown event: '"@ + n
            + "'. Run 'perf list' to see available events."@,
        EventErrorView::UnknownModifiers(m, n) => "Unknown event modifiers: '"@ + m + "' in '"@ + n
            + "'"@,
    }
}

impl EventError {
    /// The message of this error.
    pub fn to_string(&self) -> (r: String)
        ensures
            r@ == event_error_message(self@),
    {
        let mut v: Vec<char> = Vec::new();
        match self {
            EventError::UnknownEvent { name } => {
                push_str(&mut v, "Unknown event: '");
                push_str(&mut v, name.as_str());
                push_str(&mut v, "'. Run 'perf list' to see available events.");
            },
            EventError::UnknownModifiers { modifiers, name } => {
                push_str(&mut v, "Unknown event modifiers: '");
                push_str(&mut v, modifiers.as_str());
                push_str(&mut v, "' in '");
                push_str(&mut v, name.as_str());
                push_str(&mut v, "'");
            },
        }
        chars_to_string(v.as_slice())
    }
}

/// The text after the colon looks like a tracepoint name rather than a
/// modifier list.
pub open spec fn likely_tracepoint(after: Seq<char>) -> bool {
    ||| after.contains('_')
    ||| after.len() > 4
    ||| after.contains(':')
    ||| !(forall|i: int|
        0 <= i < after.len() ==> (#[trigger] after[i] == 'u' || after[i] == 'k' || after[i] == 'h'
            || after[i] == 'p'))
}

/// The outcome of parsing an event name against a table of tracepoints:
/// the event and its modifiers, or why it was refused.
pub open spec fn parse_event_spec(name: Seq<char>, table: Seq<(Seq<char>, Seq<char>, u64)>) -> Result<
    (EventView, EventModifiers),
    EventErrorView,
> {
    let n = trim(name);
    match first_index(n, ':') {
        Some(p) => {
            let after = n.subrange(p + 1, n.len() as int);
            if likely_tracepoint(after) && base_event_spec(n, table) is Some {
                Ok((base_event_spec(n, table).unwrap(), no_modifiers()))
            } else {
                let base = n.subrange(0, p);
                let (mods, unknown) = parse_modifiers_spec(after);
                if unknown.len() != 0 {
                    match base_event_spec(n, table) {
                        Some(e) => Ok((e, no_modifiers())),
                        None => Err(EventErrorView::UnknownModifiers(unknown, n)),
                    }
                } else {
                    match base_event_spec(base, table) {
                        Some(e) => Ok((e, mods)),
                        None => Err(EventErrorView::UnknownEvent(trim(base))),
                    }
                }
            }
        },
        None => match base_event_spec(n, table) {
            Some(e) => Ok((e, no_modifiers())),
            None => Err(EventErrorView::UnknownEvent(trim(n))),
        },
    }
}

fn hardware_by_name_exec(n: &[char]) -> (r: Option<Hardware>)
    ensures
        r == hardware_by_name(n@),
{
    if chars_eq_str(n, "cpu-cycles") || chars_eq_str(n, "cycles") {
        Some(Hardware::CPU_CYCLES)
    } else if chars_eq_str(n, "instructions") || chars_eq_str(n, "instructions-retired") {
        Some(Hardware::INSTRUCTIONS)
    } else if chars_eq_str(n, "cache-references") {
        Some(Hardware::CACHE_REFERENCES)
    } else if chars_eq_str(n, "cache-misses") {
        Some(Hardware::CACHE_MISSES)
    } else if chars_eq_str(n, "branch-instructions") || chars_eq_str(n, "branches") {
        Some(Hardware::BRANCH_INSTRUCTIONS)
    } else if chars_eq_str(n, "branch-misses") {
        Some(Hardware::BRANCH_MISSES)
    } else if chars_eq_str(n, "bus-cycles") {
        Some(Hardware::BUS_CYCLES)
    } else if chars_eq_str(n, "stalled-cycles-frontend") || chars_eq_str(
        n,
        "idle-cycles-frontend",
    ) {
        Some(Hardware::STALLED_CYCLES_FRONTEND)
    } else if chars_eq_str(n, "stalled-cycles-backend") || chars_eq_str(n, "idle-cycles-backend") {
        Some(Hardware::STALLED_CYCLES_BACKEND)
    } else if chars_eq_str(n, "ref-cpu-cycles") || chars_eq_str(n, "ref-cycles") || chars_eq_str(
        n,
        "cpu-cycles-ref",
    ) {
        Some(Hardware::REF_CPU_CYCLES)
    } else {
        None
    }
}

fn software_by_name_exec(n: &[char]) -> (r: Option<Software>)
    ensures
        r == software_by_name(n@),
{
    if chars_eq_str(n, "cpu-clock") {
        Some(Software::CPU_CLOCK)
    } else if chars_eq_str(n, "task-clock") {
        Some(Software::TASK_CLOCK)
    } else if chars_eq_str(n, "page-faults") || chars_eq_str(n, "faults") {
        Some(Software::PAGE_FAULTS)
    } else if chars_eq_str(n, "context-switches") || chars_eq_str(n, "cs") {
        Some(Software::CONTEXT_SWITCHES)
    } else if chars_eq_str(n, "cpu-migrations") {
        Some(Software::CPU_MIGRATIONS)
    } else if chars_eq_str(n, "minor-faults") {
        Some(Software::PAGE_FAULTS_MIN)
    } else if chars_eq_str(n, "major-faults") {
        Some(Software::PAGE_FAULTS_MAJ)
    } else if chars_eq_str(n, "alignment-faults") {
        Some(Software::ALIGNMENT_FAULTS)
    } else if chars_eq_str(n, "emulation-faults") {
        Some(Software::EMULATION_FAULTS)
    } else if chars_eq_str(n, "dummy") {
        Some(Software::DUMMY)
    } else if chars_eq_str(n, "bpf-output") {
        Some(Software::BPF_OUTPUT)
    } else if chars_eq_str(n, "cgroup-switches") {
        Some(Software::CGROUP_SWITCHES)
    } else {
        None
    }
}

fn cache_id_by_name_exec(n: &[char]) -> (r: Option<(CacheId, Vec<char>)>)
    ensures
        match r {
            Some((id, rest)) => cache_id_by_name(n@) == Some((id, rest@)),
            None => cache_id_by_name(n@) is None,
        },
{
    if let Some(r) = strip_prefix_str(n, "L1-dcache-") {
        return Some((CacheId::L1D, r));
    }
    if let Some(r) = strip_prefix_str(n, "l1-dcache-") {
        return Some((CacheId::L1D, r));
    }
    if let Some(r) = strip_prefix_str(n, "L1-d-") {
        return Some((CacheId::L1D, r));
    }
    if let Some(r) = strip_prefix_str(n, "l1-d-") {
        return Some((CacheId::L1D, r));
    }
    if let Some(r) = strip_prefix_str(n, "L1-icache-") {
        return Some((CacheId::L1I, r));
    }
    if let Some(r) = strip_prefix_str(n, "l1-icache-") {
        return Some((CacheId::L1I, r));
    }
    if let Some(r) = strip_prefix_str(n, "L1-i-") {
        return Some((CacheId::L1I, r));
    }
    if let Some(r) = strip_prefix_str(n, "l1-i-") {
        return Some((CacheId::L1I, r));
    }
    if let Some(r) = strip_prefix_str(n, "LLC-") {
        return Some((CacheId::LL, r));
    }
    if let Some(r) = strip_prefix_str(n, "llc-") {
        return Some((CacheId::LL, r));
    }
    if let Some(r) = strip_prefix_str(n, "dTLB-") {
        return Some((CacheId::DTLB, r));
    }
    if let Some(r) = strip_prefix_str(n, "dtlb-") {
        return Some((CacheId::DTLB, r));
    }
    if let Some(r) = strip_prefix_str(n, "iTLB-") {
        return Some((CacheId::ITLB, r));
    }
    if let Some(r) = strip_prefix_str(n, "itlb-") {
        return Some((CacheId::ITLB, r));
    }
    if let Some(r) = strip_prefix_str(n, "branch-") {
        return Some((CacheId::BPU, r));
    }
    if let Some(r) = strip_prefix_str(n, "node-") {
        return Some((CacheId::NODE, r));
    }
    None
}

fn cache_op_by_name_exec(r: &[char]) -> (o: Option<(CacheOp, CacheResult)>)
    ensures
        o == cache_op_by_name(r@),
{
    if chars_eq_str(r, "loads") || chars_eq_str(r, "read-accesses") || chars_eq_str(r, "reads") {
        Some((CacheOp::READ, CacheResult::ACCESS))
    } else if chars_eq_str(r, "load-misses") || chars_eq_str(r, "read-misses") {
        Some((CacheOp::READ, CacheResult::MISS))
    } else if chars_eq_str(r, "stores") || chars_eq_str(r, "write-accesses") || chars_eq_str(
        r,
        "writes",
    ) {
        Some((CacheOp::WRITE, CacheResult::ACCESS))
    } else if chars_eq_str(r, "store-misses") || chars_eq_str(r, "write-misses") {
        Some((CacheOp::WRITE, CacheResult::MISS))
    } else if chars_eq_str(r, "prefetches") || chars_eq_str(r, "prefetch-accesses") {
        Some((CacheOp::PREFETCH, CacheResult::ACCESS))
    } else if chars_eq_str(r, "prefetch-misses") {
        Some((CacheOp::PREFETCH, CacheResult::MISS))
    } else if chars_eq_str(r, "accesses") {
        Some((CacheOp::READ, CacheResult::ACCESS))
    } else if chars_eq_str(r, "misses") {
        Some((CacheOp::READ, CacheResult::MISS))
    } else {
        None
    }
}

fn cache_by_name_exec(n: &[char]) -> (r: Option<Cache>)
    ensures
        r == cache_by_name(n@),
{
    match cache_id_by_name_exec(n) {
        Some((id, rest)) => match cache_op_by_name_exec(rest.as_slice()) {
            Some((op, res)) => Some(Cache { which: id, operation: op, result: res }),
            None => None,
        },
        None => None,
    }
}

fn raw_by_name_exec(name: &[char]) -> (r: Option<u64>)
    ensures
        r == raw_by_name(name@),
{
    let n = trim_chars(name);
    if n.len() > 0 && (n[0] == 'r' || n[0] == 'R') {
        let h = sub_chars(n.as_slice(), 1, n.len());
        assert(h@ == n@.drop_first());
        let digits = match strip_prefix_str(h.as_slice(), "0x") {
            Some(d) => d,
            None => h,
        };
        proof {
            reveal_strlit("0x");
        }
        match parse_uint_chars(digits.as_slice(), 16, 0xffff_ffff_ffff_ffff) {
            Some(v) => Some(v),
            None => None,
        }
    } else {
        None
    }
}

fn tracepoint_query_exec(name: &[char]) -> (r: Option<(Vec<char>, Vec<char>)>)
    ensures
        match r {
            Some((s, t)) => tracepoint_query(name@) == Some((s@, t@)),
            None => tracepoint_query(name@) is None,
        },
{
    match find_char(name, ':') {
        Some(i) => {
            let ln: usize = name.len();
            if i > 0 && i + 1 < ln {
                Some((sub_chars(name, 0, i), sub_chars(name, i + 1, ln)))
            } else {
                None
            }
        },
        None => None,
    }
}

fn base_event_exec(name: &[char], table: &TracepointTable) -> (r: Option<PerfEvent>)
    ensures
        match r {
            Some(e) => base_event_spec(name@, table@) == Some(e@),
            None => base_event_spec(name@, table@) is None,
        },
{
    let n = trim_chars(name);
    if let Some(config) = raw_by_name_exec(n.as_slice()) {
        return Some(PerfEvent::Raw(Raw::new(config)));
    }
    let l = lowercase_chars(n.as_slice());
    if let Some(h) = hardware_by_name_exec(l.as_slice()) {
        return Some(PerfEvent::Hardware(h));
    }
    if let Some(s) = software_by_name_exec(l.as_slice()) {
        return Some(PerfEvent::Software(s));
    }
    if let Some(c) = cache_by_name_exec(l.as_slice()) {
        return Some(PerfEvent::Cache(c));
    }
    match tracepoint_query_exec(n.as_slice()) {
        Some((s, t)) => match table.lookup(s.as_slice(), t.as_slice()) {
            Some(id) => Some(
                PerfEvent::Tracepoint(
                    TracepointId {
                        subsystem: chars_to_string(s.as_slice()),
                        name: chars_to_string(t.as_slice()),
                        id,
                    },
                ),
            ),
            None => None,
        },
        None => None,
    }
}

fn likely_tracepoint_exec(after: &[char]) -> (r: bool)
    ensures
        r == likely_tracepoint(after@),
{
    if find_char(after, '_').is_some() || after.len() > 4 || find_char(after, ':').is_some() {
        return true;
    }
    let mut i: usize = 0;
    while i < after.len()
        invariant
            i <= after@.len(),
            forall|j: int|
                0 <= j < i ==> (#[trigger] after@[j] == 'u' || after@[j] == 'k' || after@[j] == 'h'
                    || after@[j] == 'p'),
        decreases after@.len() - i,
    {
        let c = after[i];
        if !(c == 'u' || c == 'k' || c == 'h' || c == 'p') {
            return true;
        }
        i = i + 1;
    }
    false
}

/// Parse an event name string to a ParsedEvent with modifiers.
///
/// Supports hardware events (`cpu-cycles`, ...), software events
/// (`cpu-clock`, ...), cache events (`L1-dcache-loads`, ...), raw events
/// (`rNNNN`, hexadecimal), tracepoints (`subsystem:name`, looked up in
/// `tracepoints`) and the modifiers `:u`, `:k`, `:h`, `:p`.
pub fn parse_event(name: &str, tracepoints: &TracepointTable) -> (r: Result<ParsedEvent, EventError>)
    ensures
        match r {
            Ok(p) => parse_event_spec(name@, tracepoints@) == Ok::<
                (EventView, EventModifiers),
                EventErrorView,
            >((p.event@, p.modifiers)),
            Err(e) => parse_event_spec(name@, tracepoints@) == Err::<
                (EventView, EventModifiers),
                EventErrorView,
            >(e@),
        },
{
    let v = str_to_chars(name);
    parse_event_chars(v.as_slice(), tracepoints)
}

fn parse_event_chars(name: &[char], tracepoints: &TracepointTable) -> (r: Result<
    ParsedEvent,
    EventError,
>)
    ensures
        match r {
            Ok(p) => parse_event_spec(name@, tracepoints@) == Ok::<
                (EventView, EventModifiers),
                EventErrorView,
            >((p.event@, p.modifiers)),
            Err(e) => parse_event_spec(name@, tracepoints@) == Err::<
                (EventView, EventModifiers),
                EventErrorView,
            >(e@),
        },
{
    let n = trim_chars(name);
    match find_char(n.as_slice(), ':') {
        Some(p) => {
            let ln: usize = n.len();
            let after = sub_chars(n.as_slice(), p + 1, ln);
            if likely_tracepoint_exec(after.as_slice()) {
                if let Some(e) = base_event_exec(n.as_slice(), tracepoints) {
                    return Ok(ParsedEvent::new(e));
                }
            }
            let base = sub_chars(n.as_slice(), 0, p);
            let (mods, unknown) = parse_modifier_chars(after.as_slice());
            if unknown.len() != 0 {
                match base_event_exec(n.as_slice(), tracepoints) {
                    Some(e) => Ok(ParsedEvent::new(e)),
                    None => Err(
                        EventError::UnknownModifiers {
                            modifiers: chars_to_string(unknown.as_slice()),
                            name: chars_to_string(n.as_slice()),
                        },
                    ),
                }
            } else {
                match base_event_exec(base.as_slice(), tracepoints) {
                    Some(e) => Ok(ParsedEvent::with_modifiers(e, mods)),
                    None => {
                        let t = trim_chars(base.as_slice());
                        Err(EventError::UnknownEvent { name: chars_to_string(t.as_slice()) })
                    },
                }
            }
        },
        None => match base_event_exec(n.as_slice(), tracepoints) {
            Some(e) => Ok(ParsedEvent::new(e)),
            None => {
                let t = trim_chars(n.as_slice());
                Err(EventError::UnknownEvent { name: chars_to_string(t.as_slice()) })
            },
        },
    }
}

/// The outcome of parsing a comma-separated list: each piece, trimmed,
/// parsed in order; the first refusal is the outcome.
pub open spec fn parse_events_spec(
    pieces: Seq<Seq<char>>,
    table: Seq<(Seq<char>, Seq<char>, u64)>,
) -> Result<Seq<(EventView, EventModifiers)>, EventErrorView>
    decreases pieces.len(),
{
    if pieces.len() == 0 {
        Ok(Seq::empty())
    } else {
        match parse_events_spec(pieces.drop_last(), table) {
            Ok(prev) => match parse_event_spec(trim(pieces.last()), table) {
                Ok(e) => Ok(prev.push(e)),
                Err(err) => Err(err),
            },
            Err(err) => Err(err),
        }
    }
}

/// Parse a comma-separated event string into a vector of ParsedEvents.
pub fn parse_events(events_str: &str, tracepoints: &TracepointTable) -> (r: Result<
    Vec<ParsedEvent>,
    EventError,
>)
    ensures
        match r {
            Ok(v) => parse_events_spec(split(events_str@, ','), tracepoints@) is Ok && v@.len()
                == parse_events_spec(split(events_str@, ','), tracepoints@)->Ok_0.len() && forall|
                i: int,
            |
                0 <= i < v@.len() ==> ((#[trigger] v@[i]).event@, v@[i].modifiers)
                    == parse_events_spec(split(events_str@, ','), tracepoints@)->Ok_0[i],
            Err(e) => parse_events_spec(split(events_str@, ','), tracepoints@) == Err::<
                Seq<(EventView, EventModifiers)>,
                EventErrorView,
            >(e@),
        },
{
    let chars = str_to_chars(events_str);
    let pieces = split_chars(chars.as_slice(), ',');
    let ghost ps = split(events_str@, ',');
    let mut out: Vec<ParsedEvent> = Vec::new();
    let mut i: usize = 0;
    while i < pieces.len()
        invariant
            i <= pieces@.len(),
            ps == split(events_str@, ','),
            pieces@.len() == ps.len(),
            forall|k: int| 0 <= k < pieces@.len() ==> #[trigger] pieces@[k]@ == ps[k],
            parse_events_spec(ps.subrange(0, i as int), tracepoints@) is Ok,
            out@.len() == parse_events_spec(ps.subrange(0, i as int), tracepoints@)->Ok_0.len(),
            forall|k: int|
                0 <= k < out@.len() ==> ((#[trigger] out@[k]).event@, out@[k].modifiers)
                    == parse_events_spec(ps.subrange(0, i as int), tracepoints@)->Ok_0[k],
        decreases pieces@.len() - i,
    {
        assert(ps.subrange(0, i + 1).drop_last() == ps.subrange(0, i as int));
        assert(ps.subrange(0, i + 1).last() == pieces@[i as int]@);
        let t = trim_chars(pieces[i].as_slice());
        match parse_event_chars(t.as_slice(), tracepoints) {
            Ok(p) => {
                out.push(p);
            },
            Err(e) => {
                proof {
                    assert(parse_events_spec(ps.subrange(0, i + 1), tracepoints@) == Err::<
                        Seq<(EventView, EventModifiers)>,
                        EventErrorView,
                    >(e@));
                    lemma_parse_events_err_sticky(ps, i as int + 1, tracepoints@);
                }
                return Err(e);
            },
        }
        i = i + 1;
    }
    assert(ps.subrange(0, ps.len() as int) == ps);
    Ok(out)
}

proof fn lemma_parse_events_err_sticky(
    ps: Seq<Seq<char>>,
    k: int,
    table: Seq<(Seq<char>, Seq<char>, u64)>,
)
    requires
        0 <= k <= ps.len(),
        parse_events_spec(ps.subrange(0, k), table) is Err,
    ensures
        parse_events_spec(ps, table) == parse_events_spec(ps.subrange(0, k), table),
    decreases ps.len() - k,
{
    if k < ps.len() {
        assert(ps.subrange(0, k + 1).drop_last() == ps.subrange(0, k));
        lemma_parse_events_err_sticky(ps, k + 1, table);
    } else {
        assert(ps.subrange(0, k) == ps);
    }
}

// ---------------------------------------------------------------------
// Formatting names
// ---------------------------------------------------------------------

/// The name of a hardware counter.
pub open spec fn hardware_name(h: Hardware) -> Seq<char> {
    match h {
        Hardware::CPU_CYCLES => "cpu-cycles"@,
        Hardware::INSTRUCTIONS => "instructions"@,
        Hardware::CACHE_REFERENCES => "cache-references"@,
        Hardware::CACHE_MISSES => "cache-misses"@,
        Hardware::BRANCH_INSTRUCTIONS => "branch-instructions"@,
        Hardware::BRANCH_MISSES => "branch-misses"@,
        Hardware::BUS_CYCLES => "bus-cycles"@,
        Hardware::STALLED_CYCLES_FRONTEND => "stalled-cycles-frontend"@,
        Hardware::STALLED_CYCLES_BACKEND => "stalled-cycles-backend"@,
        Hardware::REF_CPU_CYCLES => "ref-cycles"@,
    }
}

/// The name of a software counter.
pub open spec fn software_name(s: Software) -> Seq<char> {
    match s {
        Software::CPU_CLOCK => "cpu-clock"@,
        Software::TASK_CLOCK => "task-clock"@,
        Software::PAGE_FAULTS => "page-faults"@,
        Software::CONTEXT_SWITCHES => "context-switches"@,
        Software::CPU_MIGRATIONS => "cpu-migrations"@,
        Software::PAGE_FAULTS_MIN => "minor-faults"@,
        Software::PAGE_FAULTS_MAJ => "major-faults"@,
        Software::ALIGNMENT_FAULTS => "alignment-faults"@,
        Software::EMULATION_FAULTS => "emulation-faults"@,
        Software::DUMMY => "dummy"@,
        Software::BPF_OUTPUT => "bpf-output"@,
        Software::CGROUP_SWITCHES => "cgroup-switches"@,
    }
}

/// The name of a cache: `L1-dcache`, `LLC`, ...
pub open spec fn cache_id_name(id: CacheId) -> Seq<char> {
    match id {
        CacheId::L1D => "L1-dcache"@,
        CacheId::L1I => "L1-icache"@,
        CacheId::LL => "LLC"@,
        CacheId::DTLB => "dTLB"@,
        CacheId::ITLB => "iTLB"@,
        CacheId::BPU => "branch"@,
        CacheId::NODE => "node"@,
    }
}

/// The name of a cache operation.
pub open spec fn cache_op_name(op: CacheOp) -> Seq<char> {
    match op {
        CacheOp::READ => "load"@,
        CacheOp::WRITE => "store"@,
        CacheOp::PREFETCH => "prefetch"@,
    }
}

/// The ending that a cache result adds to an operation: the plural for
/// accesses (`loads`, `stores`, `prefetches`), `-misses` for misses.
pub open spec fn cache_result_suffix(op: CacheOp, r: CacheResult) -> Seq<char> {
    match r {
        CacheResult::ACCESS => if op == CacheOp::PREFETCH {
            "es"@
        } else {
            "s"@
        },
        CacheResult::MISS => "-misses"@,
    }
}

/// The name of a cache event: cache, `-`, operation, result ending.
pub open spec fn cache_name(c: Cache) -> Seq<char> {
    cache_id_name(c.which) + "-"@ + cache_op_name(c.operation) + cache_result_suffix(c.operation, c.result)
}

/// The name of an event.
pub open spec fn event_name_spec(e: EventView) -> Seq<char> {
    match e {
        EventView::Hardware(h) => hardware_name(h),
        EventView::Software(s) => software_name(s),
        EventView::Cache(c) => cache_name(c),
        EventView::Raw(r) => seq!['r'] + fmt_hex(r.config as nat),
        EventView::Tracepoint(s, n, _) => full_name_spec(s, n),
    }
}

fn push_hardware_name(v: &mut Vec<char>, h: Hardware)
    ensures
        final(v)@ == old(v)@ + hardware_name(h),
{
    match h {
        Hardware::CPU_CYCLES => push_str(v, "cpu-cycles"),
        Hardware::INSTRUCTIONS => push_str(v, "instructions"),
        Hardware::CACHE_REFERENCES => push_str(v, "cache-references"),
        Hardware::CACHE_MISSES => push_str(v, "cache-misses"),
        Hardware::BRANCH_INSTRUCTIONS => push_str(v, "branch-instructions"),
        Hardware::BRANCH_MISSES => push_str(v, "branch-misses"),
        Hardware::BUS_CYCLES => push_str(v, "bus-cycles"),
        Hardware::STALLED_CYCLES_FRONTEND => push_str(v, "stalled-cycles-frontend"),
        Hardware::STALLED_CYCLES_BACKEND => push_str(v, "stalled-cycles-backend"),
        Hardware::REF_CPU_CYCLES => push_str(v, "ref-cycles"),
    }
}

fn push_software_name(v: &mut Vec<char>, s: Software)
    ensures
        final(v)@ == old(v)@ + software_name(s),
{
    match s {
        Software::CPU_CLOCK => push_str(v, "cpu-clock"),
        Software::TASK_CLOCK => push_str(v, "task-clock"),
        Software::PAGE_FAULTS => push_str(v, "page-faults"),
        Software::CONTEXT_SWITCHES => push_str(v, "context-switches"),
        Software::CPU_MIGRATIONS => push_str(v, "cpu-migrations"),
        Software::PAGE_FAULTS_MIN => push_str(v, "minor-faults"),
        Software::PAGE_FAULTS_MAJ => push_str(v, "major-faults"),
        Software::ALIGNMENT_FAULTS => push_str(v, "alignment-faults"),
        Software::EMULATION_FAULTS => push_str(v, "emulation-faults"),
        Software::DUMMY => push_str(v, "dummy"),
        Software::BPF_OUTPUT => push_str(v, "bpf-output"),
        Software::CGROUP_SWITCHES => push_str(v, "cgroup-switches"),
    }
}

fn push_cache_name(v: &mut Vec<char>, c: Cache)
    ensures
        final(v)@ == old(v)@ + cache_name(c),
{
    let ghost v0 = v@;
    match c.which {
        CacheId::L1D => push_str(v, "L1-dcache"),
        CacheId::L1I => push_str(v, "L1-icache"),
        CacheId::LL => push_str(v, "LLC"),
        CacheId::DTLB => push_str(v, "dTLB"),
        CacheId::ITLB => push_str(v, "iTLB"),
        CacheId::BPU => push_str(v, "branch"),
        CacheId::NODE => push_str(v, "node"),
    }
    push_str(v, "-");
    match c.operation {
        CacheOp::READ => push_str(v, "load"),
        CacheOp::WRITE => push_str(v, "store"),
        CacheOp::PREFETCH => push_str(v, "prefetch"),
    }
    match c.result {
        CacheResult::ACCESS => match c.operation {
            CacheOp::PREFETCH => push_str(v, "es"),
            _ => push_str(v, "s"),
        },
        CacheResult::MISS => push_str(v, "-misses"),
    }
    assert(v@ =~= v0 + cache_name(c));
}

fn event_name_vec(event: &PerfEvent) -> (r: Vec<char>)
    ensures
        r@ == event_name_spec(event@),
{
    let mut v: Vec<char> = Vec::new();
    match event {
        PerfEvent::Hardware(h) => push_hardware_name(&mut v, *h),
        PerfEvent::Software(s) => push_software_name(&mut v, *s),
        PerfEvent::Cache(c) => push_cache_name(&mut v, *c),
        PerfEvent::Raw(r) => {
            v.push('r');
            let h = hex_chars(r.config);
            push_all(&mut v, h.as_slice());
        },
        PerfEvent::Tracepoint(t) => {
            push_str(&mut v, t.subsystem.as_str());
            v.push(':');
            push_str(&mut v, t.name.as_str());
        },
    }
    assert(v@ =~= event_name_spec(event@));
    v
}

/// Format a PerfEvent to a human-readable name.
pub fn format_event_name(event: &PerfEvent) -> (r: String)
    ensures
        r@ == event_name_spec(event@),
{
    let v = event_name_vec(event);
    chars_to_string(v.as_slice())
}

/// Format a ParsedEvent to a human-readable name including modifiers.
pub fn format_parsed_event_name(parsed: &ParsedEvent) -> (r: String)
    ensures
        r@ == event_name_spec(parsed.event@) + suffix_spec(parsed.modifiers),
{
    let mut v = event_name_vec(&parsed.event);
    let s = parsed.modifiers.suffix_vec();
    push_all(&mut v, s.as_slice());
    chars_to_string(v.as_slice())
}

/// The tracepoints whose IDs parsing an event list may look up: for each
/// comma-separated part that names one, (subsystem, name), in order.
pub open spec fn tracepoint_lookups_spec(parts: Seq<Seq<char>>) -> Seq<(Seq<char>, Seq<char>)>
    decreases parts.len(),
{
    if parts.len() == 0 {
        Seq::empty()
    } else {
        let prev = tracepoint_lookups_spec(parts.drop_last());
        match tracepoint_query(trim(parts.last())) {
            Some(q) => prev.push(q),
            None => prev,
        }
    }
}

/// The (subsystem, name) pairs that parsing `events_str` may look up in
/// the table of tracepoints.
pub fn tracepoint_lookups(events_str: &str) -> (r: Vec<(String, String)>)
    ensures
        r@.map_values(|p: (String, String)| (p.0@, p.1@)) == tracepoint_lookups_spec(split(events_str@, ',')),
{
    let chars = str_to_chars(events_str);
    let pieces = split_chars(chars.as_slice(), ',');
    let ghost ps = split(events_str@, ',');
    let mut out: Vec<(String, String)> = Vec::new();
    let mut i: usize = 0;
    while i < pieces.len()
        invariant
            i <= pieces@.len(),
            ps == split(events_str@, ','),
            pieces@.len() == ps.len(),
            forall|k: int| 0 <= k < pieces@.len() ==> #[trigger] pieces@[k]@ == ps[k],
            out@.map_values(|p: (String, String)| (p.0@, p.1@)) == tracepoint_lookups_spec(
                ps.subrange(0, i as int),
            ),
        decreases pieces@.len() - i,
    {
        assert(ps.subrange(0, i + 1).drop_last() =~= ps.subrange(0, i as int));
        assert(ps.subrange(0, i + 1).last() == pieces@[i as int]@);
        let t = trim_chars(pieces[i].as_slice());
        match tracepoint_query_exec(t.as_slice()) {
            Some((s, n)) => {
                out.push((chars_to_string(s.as_slice()), chars_to_string(n.as_slice())));
                assert(out@.map_values(|p: (String, String)| (p.0@, p.1@)) =~= tracepoint_lookups_spec(
                    ps.subrange(0, i + 1),
                ));
            },
            None => {
                assert(out@.map_values(|p: (String, String)| (p.0@, p.1@)) =~= tracepoint_lookups_spec(
                    ps.subrange(0, i + 1),
                ));
            },
        }
        i = i + 1;
    }
    assert(ps.subrange(0, ps.len() as int) =~= ps);
    out
}


// ---------------------------------------------------------------------
// Names read back
// ---------------------------------------------------------------------

/// A name of lower-case letters, digits and dashes is taken as it is and
/// parsed as a base event without modifiers.
proof fn lemma_lower_case_name(n: Seq<char>, table: Seq<(Seq<char>, Seq<char>, u64)>)
    requires
        n.len() > 0,
        forall|i: int| 0 <= i < n.len() ==> name_char(#[trigger] n[i]),
    ensures
        trim(n) == n,
        to_lower(n) == n,
        parse_event_spec(n, table) == (match base_event_spec(n, table) {
            Some(e) => Ok((e, no_modifiers())),
            None => Err(EventErrorView::UnknownEvent(n)),
        }),
{
    lemma_plain_text(n);
}

/// A name of lower-case letters, digits and dashes that is no raw event
/// name (it does not start with `r`, or a dash follows its second
/// character, which is no `0`) is parsed as a base event that is not raw.
proof fn lemma_plain_name(n: Seq<char>, table: Seq<(Seq<char>, Seq<char>, u64)>)
    requires
        n.len() > 0,
        n[0] != 'r' || (n.len() > 2 && n[1] != '0' && exists|i: int| 1 < i < n.len() && n[i] == '-'),
        forall|i: int| 0 <= i < n.len() ==> name_char(#[trigger] n[i]),
    ensures
        trim(n) == n,
        to_lower(n) == n,
        raw_by_name(n) is None,
        parse_event_spec(n, table) == (match base_event_spec(n, table) {
            Some(e) => Ok((e, no_modifiers())),
            None => Err(EventErrorView::UnknownEvent(n)),
        }),
{
    lemma_lower_case_name(n, table);
    if n[0] == 'r' {
        let k = choose|i: int| 1 < i < n.len() && n[i] == '-';
        let h = n.drop_first();
        assert(!has_prefix(h, "0x"@)) by {
            reveal_strlit("0x");
            if has_prefix(h, "0x"@) {
                assert(h.subrange(0, 2)[0] == h[0]);
            }
        }
        assert(h[k - 1] == '-');
        assert(crate::text::digit_val(h[k - 1], 16) is None);
        assert(!crate::text::all_digits(h, 16));
        assert(name_char(n[1]));
        assert(h[0] != '+');
    }
}

/// Reading back the name of a raw event (`r` and its config in
/// hexadecimal) gives the event, with no modifiers, whatever the tracepoint
/// table, when the event has no extra config words, which the name does
/// not carry.
pub proof fn lemma_parse_raw_name(r: Raw, table: Seq<(Seq<char>, Seq<char>, u64)>)
    requires
        r.config1 == 0,
        r.config2 == 0,
    ensures
        parse_event_spec(event_name_spec(EventView::Raw(r)), table) == Ok::<
            (EventView, EventModifiers),
            EventErrorView,
        >((EventView::Raw(r), no_modifiers())),
        event_name_spec(EventView::Raw(r)).len() > 0,
        forall|i: int|
            #![trigger event_name_spec(EventView::Raw(r))[i]]
            0 <= i < event_name_spec(EventView::Raw(r)).len() ==> name_char(event_name_spec(EventView::Raw(r))[i])
                || ('A' <= event_name_spec(EventView::Raw(r))[i] && event_name_spec(EventView::Raw(r))[i] <= 'Z'),
        base_event_spec(event_name_spec(EventView::Raw(r)), table) == Some(EventView::Raw(r)),
{
    let h = fmt_hex(r.config as nat);
    let n = seq!['r'] + h;
    crate::text::lemma_fmt_hex_digits(r.config as nat);
    assert forall|i: int| 0 <= i < n.len() implies name_char(#[trigger] n[i]) by {
        if i > 0 {
            assert(n[i] == h[i - 1]);
            assert(crate::text::hex_digit_char(h[i - 1]));
        }
    }
    lemma_lower_case_name(n, table);
    assert(n.drop_first() =~= h);
    assert(!has_prefix(h, "0x"@)) by {
        reveal_strlit("0x");
        if has_prefix(h, "0x"@) {
            assert(h.subrange(0, 2)[0] == h[0]);
            assert(h.subrange(0, 2)[1] == h[1]);
            assert(crate::text::hex_digit_char(h[1]));
        }
    }
    assert(h[0] != '+') by {
        assert(crate::text::hex_digit_char(h[0]));
    }
    assert(parse_uint_max(h, 16, u64::MAX as nat) == Some(r.config as nat));
    assert(raw_by_name(n) == Some(r.config));
}

/// Reading back the name of a hardware counter gives the counter, with no
/// modifiers, whatever the tracepoint table.
pub proof fn lemma_parse_hardware_name(h: Hardware, table: Seq<(Seq<char>, Seq<char>, u64)>)
    ensures
        parse_event_spec(hardware_name(h), table) == Ok::<(EventView, EventModifiers), EventErrorView>(
            (EventView::Hardware(h), no_modifiers()),
        ),
        hardware_name(h).len() > 0,
        forall|i: int|
            #![trigger hardware_name(h)[i]]
            0 <= i < hardware_name(h).len() ==> name_char(hardware_name(h)[i])
                || ('A' <= hardware_name(h)[i] && hardware_name(h)[i] <= 'Z'),
        base_event_spec(hardware_name(h), table) == Some(EventView::Hardware(h)),
{
    reveal_strlit("cpu-cycles");
    reveal_strlit("cycles");
    reveal_strlit("instructions");
    reveal_strlit("instructions-retired");
    reveal_strlit("cache-references");
    reveal_strlit("cache-misses");
    reveal_strlit("branch-instructions");
    reveal_strlit("branches");
    reveal_strlit("branch-misses");
    reveal_strlit("bus-cycles");
    reveal_strlit("stalled-cycles-frontend");
    reveal_strlit("idle-cycles-frontend");
    reveal_strlit("stalled-cycles-backend");
    reveal_strlit("idle-cycles-backend");
    reveal_strlit("ref-cpu-cycles");
    reveal_strlit("ref-cycles");
    reveal_strlit("cpu-cycles-ref");
    let n = hardware_name(h);
    if h == Hardware::REF_CPU_CYCLES {
        assert(n[3] == '-');
    }
    lemma_plain_name(n, table);
}


/// The other names by which counters are known, each with the counter's
/// own name and the counter: `cycles` is `cpu-cycles`, `branches` is
/// `branch-instructions`, `faults` is `page-faults`, `cs` is
/// `context-switches`, and so on.
pub open spec fn counter_alias(a: Seq<char>) -> Option<(Seq<char>, EventView)> {
    if a == "cycles"@ {
        Some(("cpu-cycles"@, EventView::Hardware(Hardware::CPU_CYCLES)))
    } else if a == "instructions-retired"@ {
        Some(("instructions"@, EventView::Hardware(Hardware::INSTRUCTIONS)))
    } else if a == "branches"@ {
        Some(("branch-instructions"@, EventView::Hardware(Hardware::BRANCH_INSTRUCTIONS)))
    } else if a == "idle-cycles-frontend"@ {
        Some(("stalled-cycles-frontend"@, EventView::Hardware(Hardware::STALLED_CYCLES_FRONTEND)))
    } else if a == "idle-cycles-backend"@ {
        Some(("stalled-cycles-backend"@, EventView::Hardware(Hardware::STALLED_CYCLES_BACKEND)))
    } else if a == "ref-cpu-cycles"@ {
        Some(("ref-cycles"@, EventView::Hardware(Hardware::REF_CPU_CYCLES)))
    } else if a == "cpu-cycles-ref"@ {
        Some(("ref-cycles"@, EventView::Hardware(Hardware::REF_CPU_CYCLES)))
    } else if a == "faults"@ {
        Some(("page-faults"@, EventView::Software(Software::PAGE_FAULTS)))
    } else if a == "cs"@ {
        Some(("context-switches"@, EventView::Software(Software::CONTEXT_SWITCHES)))
    } else {
        None
    }
}

/// An alias parses as the counter it names, with no modifiers, and so as
/// the counter's own name does, whatever the tracepoint table.
pub proof fn lemma_counter_alias(a: Seq<char>, table: Seq<(Seq<char>, Seq<char>, u64)>)
    requires
        counter_alias(a) is Some,
    ensures
        parse_event_spec(a, table) == Ok::<(EventView, EventModifiers), EventErrorView>(
            (counter_alias(a).unwrap().1, no_modifiers()),
        ),
        parse_event_spec(a, table) == parse_event_spec(counter_alias(a).unwrap().0, table),
{
    reveal_strlit("cpu-cycles");
    reveal_strlit("cycles");
    reveal_strlit("instructions");
    reveal_strlit("instructions-retired");
    reveal_strlit("cache-references");
    reveal_strlit("cache-misses");
    reveal_strlit("branch-instructions");
    reveal_strlit("branches");
    reveal_strlit("branch-misses");
    reveal_strlit("bus-cycles");
    reveal_strlit("stalled-cycles-frontend");
    reveal_strlit("idle-cycles-frontend");
    reveal_strlit("stalled-cycles-backend");
    reveal_strlit("idle-cycles-backend");
    reveal_strlit("ref-cpu-cycles");
    reveal_strlit("ref-cycles");
    reveal_strlit("cpu-cycles-ref");
    reveal_strlit("cpu-clock");
    reveal_strlit("task-clock");
    reveal_strlit("page-faults");
    reveal_strlit("faults");
    reveal_strlit("context-switches");
    reveal_strlit("cs");
    let (c, e) = counter_alias(a).unwrap();
    if a == "ref-cpu-cycles"@ {
        assert(a[3] == '-');
    }
    lemma_plain_name(a, table);
    match e {
        EventView::Hardware(h) => {
            assert(c == hardware_name(h));
            lemma_parse_hardware_name(h, table);
        },
        EventView::Software(sw) => {
            assert(c == software_name(sw));
            lemma_parse_software_name(sw, table);
        },
        _ => {},
    }
}

/// Reading back the name of a software counter gives the counter, with no
/// modifiers, whatever the tracepoint table.
pub proof fn lemma_parse_software_name(sw: Software, table: Seq<(Seq<char>, Seq<char>, u64)>)
    ensures
        parse_event_spec(software_name(sw), table) == Ok::<(EventView, EventModifiers), EventErrorView>(
            (EventView::Software(sw), no_modifiers()),
        ),
        software_name(sw).len() > 0,
        forall|i: int|
            #![trigger software_name(sw)[i]]
            0 <= i < software_name(sw).len() ==> name_char(software_name(sw)[i])
                || ('A' <= software_name(sw)[i] && software_name(sw)[i] <= 'Z'),
        base_event_spec(software_name(sw), table) == Some(EventView::Software(sw)),
{
    reveal_strlit("cpu-cycles");
    reveal_strlit("cycles");
    reveal_strlit("instructions");
    reveal_strlit("instructions-retired");
    reveal_strlit("cache-references");
    reveal_strlit("cache-misses");
    reveal_strlit("branch-instructions");
    reveal_strlit("branches");
    reveal_strlit("branch-misses");
    reveal_strlit("bus-cycles");
    reveal_strlit("stalled-cycles-frontend");
    reveal_strlit("idle-cycles-frontend");
    reveal_strlit("stalled-cycles-backend");
    reveal_strlit("idle-cycles-backend");
    reveal_strlit("ref-cpu-cycles");
    reveal_strlit("ref-cycles");
    reveal_strlit("cpu-cycles-ref");
    reveal_strlit("cpu-clock");
    reveal_strlit("task-clock");
    reveal_strlit("page-faults");
    reveal_strlit("faults");
    reveal_strlit("context-switches");
    reveal_strlit("cs");
    reveal_strlit("cpu-migrations");
    reveal_strlit("minor-faults");
    reveal_strlit("major-faults");
    reveal_strlit("alignment-faults");
    reveal_strlit("emulation-faults");
    reveal_strlit("dummy");
    reveal_strlit("bpf-output");
    reveal_strlit("cgroup-switches");
    let n = software_name(sw);
    lemma_plain_name(n, table);
}


/// A name of letters of either case, digits and dashes, starting with
/// neither `r` nor `R`, is taken as it is, lowered letter by letter, and
/// parsed as a base event without modifiers.
proof fn lemma_mixed_case_name(n: Seq<char>, table: Seq<(Seq<char>, Seq<char>, u64)>)
    requires
        n.len() > 0,
        n[0] != 'r' && n[0] != 'R',
        forall|i: int| 0 <= i < n.len() ==> name_char(#[trigger] n[i]) || ('A' <= n[i] && n[i] <= 'Z'),
    ensures
        trim(n) == n,
        raw_by_name(n) is None,
        to_lower(n) == lower_all(n),
        parse_event_spec(n, table) == (match base_event_spec(n, table) {
            Some(e) => Ok((e, no_modifiers())),
            None => Err(EventErrorView::UnknownEvent(n)),
        }),
{
    assert(!crate::text::is_ws(n[0]));
    assert(!crate::text::is_ws(n.last()));
    assert(crate::text::trim_start(n) == n);
    assert(crate::text::trim_end(n) == n);
    assert(is_ascii_seq(n)) by {
        assert forall|i: int| 0 <= i < n.len() implies (#[trigger] n[i] as u32) < 128 by {
            assert(name_char(n[i]) || ('A' <= n[i] && n[i] <= 'Z'));
        }
    }
    assert forall|j: int| 0 <= j < n.len() implies n[j] != ':' by {
        assert(name_char(n[j]) || ('A' <= n[j] && n[j] <= 'Z'));
    }
    crate::text::lemma_first_index_none(n, ':');
}

/// The lower-case name of a cache.
pub open spec fn cache_id_lower_name(id: CacheId) -> Seq<char> {
    match id {
        CacheId::L1D => "l1-dcache"@,
        CacheId::L1I => "l1-icache"@,
        CacheId::LL => "llc"@,
        CacheId::DTLB => "dtlb"@,
        CacheId::ITLB => "itlb"@,
        CacheId::BPU => "branch"@,
        CacheId::NODE => "node"@,
    }
}

proof fn lemma_cache_name_lower(c: Cache)
    ensures
        lower_all(cache_name(c)) == cache_id_lower_name(c.which) + "-"@ + cache_op_name(c.operation)
            + cache_result_suffix(c.operation, c.result),
        forall|i: int|
            0 <= i < cache_name(c).len() ==> name_char(#[trigger] cache_name(c)[i]) || ('A' <= cache_name(
                c,
            )[i] && cache_name(c)[i] <= 'Z'),
        cache_name(c).len() > 0,
        cache_name(c)[0] != 'r' && cache_name(c)[0] != 'R',
{
    reveal_strlit("L1-dcache");
    reveal_strlit("L1-icache");
    reveal_strlit("LLC");
    reveal_strlit("dTLB");
    reveal_strlit("iTLB");
    reveal_strlit("branch");
    reveal_strlit("node");
    reveal_strlit("l1-dcache");
    reveal_strlit("l1-icache");
    reveal_strlit("llc");
    reveal_strlit("dtlb");
    reveal_strlit("itlb");
    reveal_strlit("-");
    reveal_strlit("load");
    reveal_strlit("store");
    reveal_strlit("prefetch");
    reveal_strlit("s");
    reveal_strlit("es");
    reveal_strlit("-misses");
    let a = cache_id_name(c.which);
    let b = cache_op_name(c.operation);
    let d = cache_result_suffix(c.operation, c.result);
    lemma_lower_all_add(a + "-"@ + b, d);
    lemma_lower_all_add(a + "-"@, b);
    lemma_lower_all_add(a, "-"@);
    lemma_lower_fixed("-"@);
    lemma_lower_fixed(b);
    lemma_lower_fixed(d);
    assert(lower_all(a) =~= cache_id_lower_name(c.which));
}

/// Reading back the name of a cache event gives the event, with no
/// modifiers, whatever the tracepoint table.
pub proof fn lemma_parse_cache_name(c: Cache, table: Seq<(Seq<char>, Seq<char>, u64)>)
    ensures
        parse_event_spec(cache_name(c), table) == Ok::<(EventView, EventModifiers), EventErrorView>(
            (EventView::Cache(c), no_modifiers()),
        ),
        cache_name(c).len() > 0,
        forall|i: int|
            #![trigger cache_name(c)[i]]
            0 <= i < cache_name(c).len() ==> name_char(cache_name(c)[i])
                || ('A' <= cache_name(c)[i] && cache_name(c)[i] <= 'Z'),
        base_event_spec(cache_name(c), table) == Some(EventView::Cache(c)),
{
    lemma_cache_name_lower(c);
    lemma_mixed_case_name(cache_name(c), table);
    let l = cache_id_lower_name(c.which) + "-"@ + cache_op_name(c.operation) + cache_result_suffix(c.operation, c.result);
    let rest = cache_op_name(c.operation) + cache_result_suffix(c.operation, c.result);
    assert(l =~= cache_id_lower_name(c.which) + "-"@ + rest);
    assert(to_lower(cache_name(c)) == l);
    lemma_cache_op_lookup(c.operation, c.result);
    lemma_cache_id_lookup(c.which, rest);
    assert(hardware_by_name(l) is None && software_by_name(l) is None) by {
        reveal_strlit("l1-dcache");
        reveal_strlit("l1-icache");
        reveal_strlit("llc");
        reveal_strlit("dtlb");
        reveal_strlit("itlb");
        reveal_strlit("branch");
        reveal_strlit("node");
        reveal_strlit("-");
        reveal_strlit("load");
        reveal_strlit("store");
        reveal_strlit("prefetch");
        reveal_strlit("s");
        reveal_strlit("es");
        reveal_strlit("-misses");
        if hardware_by_name(l) is Some || software_by_name(l) is Some {
            lemma_counter_names(l);
            let p = cache_id_lower_name(c.which) + "-"@;
            assert(l[0] == p[0]);
            assert(l[1] == p[1]);
            assert(p.len() >= 4);
            if c.which == CacheId::BPU {
                assert(l[6] == p[6]);
                assert(l[7] == rest[0]);
            }
        }
    }
    assert(cache_by_name(l) == Some(c));
}



/// The ending of a cache event name after its cache is looked up as its
/// operation and result.
proof fn lemma_cache_op_lookup(op: CacheOp, res: CacheResult)
    ensures
        cache_op_by_name(cache_op_name(op) + cache_result_suffix(op, res)) == Some((op, res)),
{
    reveal_strlit("loads");
    reveal_strlit("read-accesses");
    reveal_strlit("reads");
    reveal_strlit("load-misses");
    reveal_strlit("read-misses");
    reveal_strlit("stores");
    reveal_strlit("write-accesses");
    reveal_strlit("writes");
    reveal_strlit("store-misses");
    reveal_strlit("write-misses");
    reveal_strlit("prefetches");
    reveal_strlit("prefetch-accesses");
    reveal_strlit("prefetch-misses");
    reveal_strlit("accesses");
    reveal_strlit("misses");
    reveal_strlit("load");
    reveal_strlit("store");
    reveal_strlit("prefetch");
    reveal_strlit("s");
    reveal_strlit("es");
    reveal_strlit("-misses");
    let r = cache_op_name(op) + cache_result_suffix(op, res);
    match op {
        CacheOp::READ => match res {
            CacheResult::ACCESS => assert(r =~= "loads"@),
            CacheResult::MISS => assert(r =~= "load-misses"@),
        },
        CacheOp::WRITE => match res {
            CacheResult::ACCESS => assert(r =~= "stores"@),
            CacheResult::MISS => assert(r =~= "store-misses"@),
        },
        CacheOp::PREFETCH => match res {
            CacheResult::ACCESS => assert(r =~= "prefetches"@),
            CacheResult::MISS => assert(r =~= "prefetch-misses"@),
        },
    }
}

/// A lower-case cache name and a dash, then anything, is looked up as
/// that cache, with what follows the dash.
proof fn lemma_cache_id_lookup(id: CacheId, rest: Seq<char>)
    ensures
        cache_id_by_name(cache_id_lower_name(id) + "-"@ + rest) == Some((id, rest)),
{
    reveal_strlit("L1-dcache-");
    reveal_strlit("l1-dcache-");
    reveal_strlit("L1-d-");
    reveal_strlit("l1-d-");
    reveal_strlit("L1-icache-");
    reveal_strlit("l1-icache-");
    reveal_strlit("L1-i-");
    reveal_strlit("l1-i-");
    reveal_strlit("LLC-");
    reveal_strlit("llc-");
    reveal_strlit("dTLB-");
    reveal_strlit("dtlb-");
    reveal_strlit("iTLB-");
    reveal_strlit("itlb-");
    reveal_strlit("branch-");
    reveal_strlit("node-");
    reveal_strlit("l1-dcache");
    reveal_strlit("l1-icache");
    reveal_strlit("llc");
    reveal_strlit("dtlb");
    reveal_strlit("itlb");
    reveal_strlit("branch");
    reveal_strlit("node");
    reveal_strlit("-");
    let p = cache_id_lower_name(id) + "-"@;
    let l = p + rest;
    assert(l.subrange(0, p.len() as int) =~= p);
    assert(l.subrange(p.len() as int, l.len() as int) =~= rest);
    match id {
        CacheId::L1D => {
            assert(p =~= "l1-dcache-"@);
            lemma_prefix_differs(l, "L1-dcache-"@, 0);
        },
        CacheId::L1I => {
            assert(p =~= "l1-icache-"@);
            lemma_prefix_differs(l, "L1-dcache-"@, 0);
            lemma_prefix_differs(l, "l1-dcache-"@, 3);
            lemma_prefix_differs(l, "L1-d-"@, 0);
            lemma_prefix_differs(l, "l1-d-"@, 3);
            lemma_prefix_differs(l, "L1-icache-"@, 0);
        },
        CacheId::LL => {
            assert(p =~= "llc-"@);
            lemma_prefix_differs(l, "L1-dcache-"@, 0);
            lemma_prefix_differs(l, "l1-dcache-"@, 1);
            lemma_prefix_differs(l, "L1-d-"@, 0);
            lemma_prefix_differs(l, "l1-d-"@, 1);
            lemma_prefix_differs(l, "L1-icache-"@, 0);
            lemma_prefix_differs(l, "l1-icache-"@, 1);
            lemma_prefix_differs(l, "L1-i-"@, 0);
            lemma_prefix_differs(l, "l1-i-"@, 1);
            lemma_prefix_differs(l, "LLC-"@, 0);
        },
        CacheId::DTLB => {
            assert(p =~= "dtlb-"@);
            lemma_prefix_differs(l, "L1-dcache-"@, 0);
            lemma_prefix_differs(l, "l1-dcache-"@, 0);
            lemma_prefix_differs(l, "L1-d-"@, 0);
            lemma_prefix_differs(l, "l1-d-"@, 0);
            lemma_prefix_differs(l, "L1-icache-"@, 0);
            lemma_prefix_differs(l, "l1-icache-"@, 0);
            lemma_prefix_differs(l, "L1-i-"@, 0);
            lemma_prefix_differs(l, "l1-i-"@, 0);
            lemma_prefix_differs(l, "LLC-"@, 0);
            lemma_prefix_differs(l, "llc-"@, 0);
            lemma_prefix_differs(l, "dTLB-"@, 1);
        },
        CacheId::ITLB => {
            assert(p =~= "itlb-"@);
            lemma_prefix_differs(l, "L1-dcache-"@, 0);
            lemma_prefix_differs(l, "l1-dcache-"@, 0);
            lemma_prefix_differs(l, "L1-d-"@, 0);
            lemma_prefix_differs(l, "l1-d-"@, 0);
            lemma_prefix_differs(l, "L1-icache-"@, 0);
            lemma_prefix_differs(l, "l1-icache-"@, 0);
            lemma_prefix_differs(l, "L1-i-"@, 0);
            lemma_prefix_differs(l, "l1-i-"@, 0);
            lemma_prefix_differs(l, "LLC-"@, 0);
            lemma_prefix_differs(l, "llc-"@, 0);
            lemma_prefix_differs(l, "dTLB-"@, 0);
            lemma_prefix_differs(l, "dtlb-"@, 0);
            lemma_prefix_differs(l, "iTLB-"@, 1);
        },
        CacheId::BPU => {
            assert(p =~= "branch-"@);
            lemma_prefix_differs(l, "L1-dcache-"@, 0);
            lemma_prefix_differs(l, "l1-dcache-"@, 0);
            lemma_prefix_differs(l, "L1-d-"@, 0);
            lemma_prefix_differs(l, "l1-d-"@, 0);
            lemma_prefix_differs(l, "L1-icache-"@, 0);
            lemma_prefix_differs(l, "l1-icache-"@, 0);
            lemma_prefix_differs(l, "L1-i-"@, 0);
            lemma_prefix_differs(l, "l1-i-"@, 0);
            lemma_prefix_differs(l, "LLC-"@, 0);
            lemma_prefix_differs(l, "llc-"@, 0);
            lemma_prefix_differs(l, "dTLB-"@, 0);
            lemma_prefix_differs(l, "dtlb-"@, 0);
            lemma_prefix_differs(l, "iTLB-"@, 0);
            lemma_prefix_differs(l, "itlb-"@, 0);
        },
        CacheId::NODE => {
            assert(p =~= "node-"@);
            lemma_prefix_differs(l, "L1-dcache-"@, 0);
            lemma_prefix_differs(l, "l1-dcache-"@, 0);
            lemma_prefix_differs(l, "L1-d-"@, 0);
            lemma_prefix_differs(l, "l1-d-"@, 0);
            lemma_prefix_differs(l, "L1-icache-"@, 0);
            lemma_prefix_differs(l, "l1-icache-"@, 0);
            lemma_prefix_differs(l, "L1-i-"@, 0);
            lemma_prefix_differs(l, "l1-i-"@, 0);
            lemma_prefix_differs(l, "LLC-"@, 0);
            lemma_prefix_differs(l, "llc-"@, 0);
            lemma_prefix_differs(l, "dTLB-"@, 0);
            lemma_prefix_differs(l, "dtlb-"@, 0);
            lemma_prefix_differs(l, "iTLB-"@, 0);
            lemma_prefix_differs(l, "itlb-"@, 0);
            lemma_prefix_differs(l, "branch-"@, 0);
        },
    }
}


/// A text that differs from `q` at a position of `q` does not start with it.
proof fn lemma_prefix_differs(l: Seq<char>, q: Seq<char>, k: int)
    requires
        0 <= k < q.len(),
        k < l.len(),
        l[k] != q[k],
    ensures
        !has_prefix(l, q),
{
    if has_prefix(l, q) {
        assert(l.subrange(0, q.len() as int)[k] == l[k]);
    }
}


/// What the names of counters look like, as far as telling them from cache
/// event names goes.
proof fn lemma_counter_names(n: Seq<char>)
    requires
        hardware_by_name(n) is Some || software_by_name(n) is Some,
    ensures
        n.len() > 1,
        n[0] != 'l' && n[0] != 'n',
        n[0] == 'd' ==> n.len() == 5,
        n[0] == 'i' ==> n[1] != 't',
        (n[0] == 'b' && n.len() > 7 && n[6] == '-') ==> (n[7] == 'i' || n[7] == 'm'),
        forall|i: int| 0 <= i < n.len() ==> name_char(#[trigger] n[i]),
{
    reveal_strlit("cpu-cycles");
    reveal_strlit("cycles");
    reveal_strlit("instructions");
    reveal_strlit("instructions-retired");
    reveal_strlit("cache-references");
    reveal_strlit("cache-misses");
    reveal_strlit("branch-instructions");
    reveal_strlit("branches");
    reveal_strlit("branch-misses");
    reveal_strlit("bus-cycles");
    reveal_strlit("stalled-cycles-frontend");
    reveal_strlit("idle-cycles-frontend");
    reveal_strlit("stalled-cycles-backend");
    reveal_strlit("idle-cycles-backend");
    reveal_strlit("ref-cpu-cycles");
    reveal_strlit("ref-cycles");
    reveal_strlit("cpu-cycles-ref");
    reveal_strlit("cpu-clock");
    reveal_strlit("task-clock");
    reveal_strlit("page-faults");
    reveal_strlit("faults");
    reveal_strlit("context-switches");
    reveal_strlit("cs");
    reveal_strlit("cpu-migrations");
    reveal_strlit("minor-faults");
    reveal_strlit("major-faults");
    reveal_strlit("alignment-faults");
    reveal_strlit("emulation-faults");
    reveal_strlit("dummy");
    reveal_strlit("bpf-output");
    reveal_strlit("cgroup-switches");
}


/// Parsing the modifier letters that a suffix shows gives back the
/// modifiers, but for the hypervisor exclusion, which no suffix shows.
pub proof fn lemma_parse_suffix_chars(m: EventModifiers)
    requires
        !m.exclude_hv,
    ensures
        parse_modifiers_spec(suffix_chars(m)) == (m, Seq::<char>::empty()),
{
    reveal_with_fuel(parse_modifiers_spec, 3);
    let sc = suffix_chars(m);
    if m.exclude_kernel && !m.exclude_user {
        if m.precise {
            assert(sc =~= seq!['u', 'p']);
            assert(sc.drop_last() =~= seq!['u']);
            assert(seq!['u'].drop_last() =~= Seq::<char>::empty());
        } else {
            assert(sc =~= seq!['u']);
            assert(sc.drop_last() =~= Seq::<char>::empty());
        }
    } else if m.exclude_user && !m.exclude_kernel {
        if m.precise {
            assert(sc =~= seq!['k', 'p']);
            assert(sc.drop_last() =~= seq!['k']);
            assert(seq!['k'].drop_last() =~= Seq::<char>::empty());
        } else {
            assert(sc =~= seq!['k']);
            assert(sc.drop_last() =~= Seq::<char>::empty());
        }
    } else if m.exclude_user && m.exclude_kernel {
        if m.precise {
            assert(sc =~= seq!['h', 'p']);
            assert(sc.drop_last() =~= seq!['h']);
            assert(seq!['h'].drop_last() =~= Seq::<char>::empty());
        } else {
            assert(sc =~= seq!['h']);
            assert(sc.drop_last() =~= Seq::<char>::empty());
        }
    } else {
        if m.precise {
            assert(sc =~= seq!['p']);
            assert(sc.drop_last() =~= Seq::<char>::empty());
        } else {
            assert(sc =~= Seq::<char>::empty());
        }
    }
}


/// The events whose printed name reads back as them: counters, cache
/// events, and raw events without extra config words.
pub open spec fn name_reads_back(e: EventView) -> bool {
    match e {
        EventView::Hardware(_) => true,
        EventView::Software(_) => true,
        EventView::Cache(_) => true,
        EventView::Raw(r) => r.config1 == 0 && r.config2 == 0,
        EventView::Tracepoint(_, _, _) => false,
    }
}

/// The printed name of such an event is made of letters, digits and
/// dashes, and is looked up as the event.
proof fn lemma_event_name_shape(e: EventView, table: Seq<(Seq<char>, Seq<char>, u64)>)
    requires
        name_reads_back(e),
    ensures
        event_name_spec(e).len() > 0,
        forall|i: int|
            0 <= i < event_name_spec(e).len() ==> name_char(#[trigger] event_name_spec(e)[i]) || (
            'A' <= event_name_spec(e)[i] && event_name_spec(e)[i] <= 'Z'),
        base_event_spec(event_name_spec(e), table) == Some(e),
{
    match e {
        EventView::Hardware(h) => lemma_parse_hardware_name(h, table),
        EventView::Software(sw) => lemma_parse_software_name(sw, table),
        EventView::Cache(c) => lemma_parse_cache_name(c, table),
        EventView::Raw(r) => lemma_parse_raw_name(r, table),
        EventView::Tracepoint(_, _, _) => {},
    }
}

/// Reading back the printed name of an event with its modifiers (see
/// `format_parsed_event_name`) gives the event and the modifiers, whatever
/// the tracepoint table: for counters, cache events, and raw events
/// without extra config words, with any modifiers but the
/// hypervisor exclusion, which no suffix shows.
pub proof fn lemma_parse_formatted_event(
    e: EventView,
    m: EventModifiers,
    table: Seq<(Seq<char>, Seq<char>, u64)>,
)
    requires
        name_reads_back(e),
        !m.exclude_hv,
    ensures
        parse_event_spec(event_name_spec(e) + suffix_spec(m), table) == Ok::<
            (EventView, EventModifiers),
            EventErrorView,
        >((e, m)),
{
    let n = event_name_spec(e);
    lemma_event_name_shape(e, table);
    let sc = suffix_chars(m);
    lemma_parse_suffix_chars(m);
    if sc.len() == 0 {
        assert(m == no_modifiers());
        assert(n + suffix_spec(m) =~= n);
        match e {
            EventView::Hardware(h) => lemma_parse_hardware_name(h, table),
            EventView::Software(sw) => lemma_parse_software_name(sw, table),
            EventView::Cache(c) => lemma_parse_cache_name(c, table),
            EventView::Raw(r) => lemma_parse_raw_name(r, table),
            EventView::Tracepoint(_, _, _) => {},
        }
    } else {
        let full = n + suffix_spec(m);
        assert(full =~= n + seq![':'] + sc);
        assert(!crate::text::is_ws(full[0])) by {
            assert(full[0] == n[0]);
        }
        assert(!crate::text::is_ws(full.last())) by {
            assert(full.last() == sc.last());
        }
        assert(crate::text::trim_start(full) == full);
        assert(crate::text::trim_end(full) == full);
        assert(is_first_index(full, ':', n.len() as int)) by {
            assert forall|j: int| 0 <= j < n.len() implies full[j] != ':' by {
                assert(full[j] == n[j]);
            }
        }
        crate::text::lemma_first_index_unique(full, ':', n.len() as int);
        assert(full.subrange(n.len() as int + 1, full.len() as int) =~= sc);
        assert(full.subrange(0, n.len() as int) =~= n);
        assert(!likely_tracepoint(sc));
    }
}


/// The endings that name a cache operation are made of lower-case letters
/// and dashes.
proof fn lemma_cache_op_names(r: Seq<char>)
    requires
        cache_op_by_name(r) is Some,
    ensures
        forall|i: int| 0 <= i < r.len() ==> name_char(#[trigger] r[i]),
{
    reveal_strlit("loads");
    reveal_strlit("read-accesses");
    reveal_strlit("reads");
    reveal_strlit("load-misses");
    reveal_strlit("read-misses");
    reveal_strlit("stores");
    reveal_strlit("write-accesses");
    reveal_strlit("writes");
    reveal_strlit("store-misses");
    reveal_strlit("write-misses");
    reveal_strlit("prefetches");
    reveal_strlit("prefetch-accesses");
    reveal_strlit("prefetch-misses");
    reveal_strlit("accesses");
    reveal_strlit("misses");
}

/// Reading back the name (`subsystem:name`) of a tracepoint that the table
/// knows gives the tracepoint, with no modifiers: for ASCII names with a
/// subsystem that holds no colon, nothing to trim at either end, and a name
/// that looks like a tracepoint name rather than modifiers (see
/// `likely_tracepoint`).
pub proof fn lemma_parse_tracepoint_name(
    subsystem: Seq<char>,
    name: Seq<char>,
    id: u64,
    table: Seq<(Seq<char>, Seq<char>, u64)>,
)
    requires
        subsystem.len() > 0,
        name.len() > 0,
        is_ascii_seq(subsystem),
        is_ascii_seq(name),
        !subsystem.contains(':'),
        !crate::text::is_ws(subsystem[0]),
        !crate::text::is_ws(name.last()),
        likely_tracepoint(name),
        table_lookup(table, subsystem, name) == Some(id),
    ensures
        parse_event_spec(event_name_spec(EventView::Tracepoint(subsystem, name, id)), table) == Ok::<
            (EventView, EventModifiers),
            EventErrorView,
        >((EventView::Tracepoint(subsystem, name, id), no_modifiers())),
{
    let n = full_name_spec(subsystem, name);
    let k = subsystem.len() as int;
    assert(n[0] == subsystem[0]);
    assert(n.last() == name.last());
    assert(crate::text::trim_start(n) == n);
    assert(crate::text::trim_end(n) == n);
    assert(n[k] == ':');
    assert(is_first_index(n, ':', k)) by {
        assert forall|j: int| 0 <= j < k implies n[j] != ':' by {
            assert(n[j] == subsystem[j]);
            if n[j] == ':' {
                assert(subsystem.contains(':'));
            }
        }
    }
    crate::text::lemma_first_index_unique(n, ':', k);
    assert(n.subrange(0, k) =~= subsystem);
    assert(n.subrange(k + 1, n.len() as int) =~= name);
    assert(is_ascii_seq(n)) by {
        assert forall|i: int| 0 <= i < n.len() implies (#[trigger] n[i] as u32) < 128 by {
            if i < k {
                assert(n[i] == subsystem[i]);
            } else if i > k {
                assert(n[i] == name[i - k - 1]);
            }
        }
    }
    let l = lower_all(n);
    assert(l[k] == ':');
    // No counter, cache or raw name holds a colon.
    if hardware_by_name(l) is Some || software_by_name(l) is Some {
        lemma_counter_names(l);
        assert(name_char(l[k]));
    }
    if cache_by_name(l) is Some {
        lemma_cache_name_no_colon(l, k);
    }
    if n[0] == 'r' || n[0] == 'R' {
        let h = n.drop_first();
        assert(h[k - 1] == ':');
        if has_prefix(h, "0x"@) {
            reveal_strlit("0x");
            assert(h.subrange(0, 2)[0] == h[0]);
            assert(h.subrange(0, 2)[1] == h[1]);
            let digits = h.subrange(2, h.len() as int);
            assert(digits[k - 3] == ':');
            lemma_no_uint_with_colon(digits, k - 3);
        } else {
            lemma_no_uint_with_colon(h, k - 1);
        }
    }
}


/// No cache event name holds a colon.
proof fn lemma_cache_name_no_colon(l: Seq<char>, k: int)
    requires
        cache_by_name(l) is Some,
        0 <= k < l.len(),
    ensures
        l[k] != ':',
{
    reveal_strlit("L1-dcache-");
    reveal_strlit("l1-dcache-");
    reveal_strlit("L1-d-");
    reveal_strlit("l1-d-");
    reveal_strlit("L1-icache-");
    reveal_strlit("l1-icache-");
    reveal_strlit("L1-i-");
    reveal_strlit("l1-i-");
    reveal_strlit("LLC-");
    reveal_strlit("llc-");
    reveal_strlit("dTLB-");
    reveal_strlit("dtlb-");
    reveal_strlit("iTLB-");
    reveal_strlit("itlb-");
    reveal_strlit("branch-");
    reveal_strlit("node-");
    if has_prefix(l, "L1-dcache-"@) {
        let p = "L1-dcache-"@;
        let rest = l.subrange(p.len() as int, l.len() as int);
        lemma_cache_op_names(rest);
        if k < p.len() {
            assert(l.subrange(0, p.len() as int)[k] == l[k]);
        } else {
            assert(rest[k - p.len()] == l[k]);
        }
    } else if has_prefix(l, "l1-dcache-"@) {
        let p = "l1-dcache-"@;
        let rest = l.subrange(p.len() as int, l.len() as int);
        lemma_cache_op_names(rest);
        if k < p.len() {
            assert(l.subrange(0, p.len() as int)[k] == l[k]);
        } else {
            assert(rest[k - p.len()] == l[k]);
        }
    } else if has_prefix(l, "L1-d-"@) {
        let p = "L1-d-"@;
        let rest = l.subrange(p.len() as int, l.len() as int);
        lemma_cache_op_names(rest);
        if k < p.len() {
            assert(l.subrange(0, p.len() as int)[k] == l[k]);
        } else {
            assert(rest[k - p.len()] == l[k]);
        }
    } else if has_prefix(l, "l1-d-"@) {
        let p = "l1-d-"@;
        let rest = l.subrange(p.len() as int, l.len() as int);
        lemma_cache_op_names(rest);
        if k < p.len() {
            assert(l.subrange(0, p.len() as int)[k] == l[k]);
        } else {
            assert(rest[k - p.len()] == l[k]);
        }
    } else if has_prefix(l, "L1-icache-"@) {
        let p = "L1-icache-"@;
        let rest = l.subrange(p.len() as int, l.len() as int);
        lemma_cache_op_names(rest);
        if k < p.len() {
            assert(l.subrange(0, p.len() as int)[k] == l[k]);
        } else {
            assert(rest[k - p.len()] == l[k]);
        }
    } else if has_prefix(l, "l1-icache-"@) {
        let p = "l1-icache-"@;
        let rest = l.subrange(p.len() as int, l.len() as int);
        lemma_cache_op_names(rest);
        if k < p.len() {
            assert(l.subrange(0, p.len() as int)[k] == l[k]);
        } else {
            assert(rest[k - p.len()] == l[k]);
        }
    } else if has_prefix(l, "L1-i-"@) {
        let p = "L1-i-"@;
        let rest = l.subrange(p.len() as int, l.len() as int);
        lemma_cache_op_names(rest);
        if k < p.len() {
            assert(l.subrange(0, p.len() as int)[k] == l[k]);
        } else {
            assert(rest[k - p.len()] == l[k]);
        }
    } else if has_prefix(l, "l1-i-"@) {
        let p = "l1-i-"@;
        let rest = l.subrange(p.len() as int, l.len() as int);
        lemma_cache_op_names(rest);
        if k < p.len() {
            assert(l.subrange(0, p.len() as int)[k] == l[k]);
        } else {
            assert(rest[k - p.len()] == l[k]);
        }
    } else if has_prefix(l, "LLC-"@) {
        let p = "LLC-"@;
        let rest = l.subrange(p.len() as int, l.len() as int);
        lemma_cache_op_names(rest);
        if k < p.len() {
            assert(l.subrange(0, p.len() as int)[k] == l[k]);
        } else {
            assert(rest[k - p.len()] == l[k]);
        }
    } else if has_prefix(l, "llc-"@) {
        let p = "llc-"@;
        let rest = l.subrange(p.len() as int, l.len() as int);
        lemma_cache_op_names(rest);
        if k < p.len() {
            assert(l.subrange(0, p.len() as int)[k] == l[k]);
        } else {
            assert(rest[k - p.len()] == l[k]);
        }
    } else if has_prefix(l, "dTLB-"@) {
        let p = "dTLB-"@;
        let rest = l.subrange(p.len() as int, l.len() as int);
        lemma_cache_op_names(rest);
        if k < p.len() {
            assert(l.subrange(0, p.len() as int)[k] == l[k]);
        } else {
            assert(rest[k - p.len()] == l[k]);
        }
    } else if has_prefix(l, "dtlb-"@) {
        let p = "dtlb-"@;
        let rest = l.subrange(p.len() as int, l.len() as int);
        lemma_cache_op_names(rest);
        if k < p.len() {
            assert(l.subrange(0, p.len() as int)[k] == l[k]);
        } else {
            assert(rest[k - p.len()] == l[k]);
        }
    } else if has_prefix(l, "iTLB-"@) {
        let p = "iTLB-"@;
        let rest = l.subrange(p.len() as int, l.len() as int);
        lemma_cache_op_names(rest);
        if k < p.len() {
            assert(l.subrange(0, p.len() as int)[k] == l[k]);
        } else {
            assert(rest[k - p.len()] == l[k]);
        }
    } else if has_prefix(l, "itlb-"@) {
        let p = "itlb-"@;
        let rest = l.subrange(p.len() as int, l.len() as int);
        lemma_cache_op_names(rest);
        if k < p.len() {
            assert(l.subrange(0, p.len() as int)[k] == l[k]);
        } else {
            assert(rest[k - p.len()] == l[k]);
        }
    } else if has_prefix(l, "branch-"@) {
        let p = "branch-"@;
        let rest = l.subrange(p.len() as int, l.len() as int);
        lemma_cache_op_names(rest);
        if k < p.len() {
            assert(l.subrange(0, p.len() as int)[k] == l[k]);
        } else {
            assert(rest[k - p.len()] == l[k]);
        }
    } else if has_prefix(l, "node-"@) {
        let p = "node-"@;
        let rest = l.subrange(p.len() as int, l.len() as int);
        lemma_cache_op_names(rest);
        if k < p.len() {
            assert(l.subrange(0, p.len() as int)[k] == l[k]);
        } else {
            assert(rest[k - p.len()] == l[k]);
        }
    }
}

/// Text with a colon is no unsigned number.
proof fn lemma_no_uint_with_colon(d: Seq<char>, j: int)
    requires
        0 <= j < d.len(),
        d[j] == ':',
    ensures
        crate::text::parse_uint(d, 16) is None,
{
    if d.len() > 0 && d[0] == '+' {
        let e = d.drop_first();
        assert(e[j - 1] == ':');
        assert(crate::text::digit_val(e[j - 1], 16) is None);
    } else {
        assert(crate::text::digit_val(d[j], 16) is None);
    }
}


/// Whether a character is a modifier letter.
pub open spec fn modifier_char(c: char) -> bool {
    c == 'u' || c == 'k' || c == 'h' || c == 'p'
}

/// Modifier letters leave nothing unknown.
proof fn lemma_modifier_letters_known(m: Seq<char>)
    requires
        forall|i: int| 0 <= i < m.len() ==> modifier_char(#[trigger] m[i]),
    ensures
        parse_modifiers_spec(m).1.len() == 0,
    decreases m.len(),
{
    if m.len() > 0 {
        assert(modifier_char(m.last()));
        assert forall|i: int| 0 <= i < m.drop_last().len() implies modifier_char(#[trigger] m.drop_last()[i]) by {
            assert(m.drop_last()[i] == m[i]);
        }
        lemma_modifier_letters_known(m.drop_last());
    }
}

/// Surrounding whitespace does not change what an event name parses as.
pub proof fn lemma_parse_padded_name(
    pad: Seq<char>,
    name: Seq<char>,
    pad2: Seq<char>,
    table: Seq<(Seq<char>, Seq<char>, u64)>,
)
    requires
        forall|i: int| 0 <= i < pad.len() ==> crate::text::is_ws(#[trigger] pad[i]),
        forall|i: int| 0 <= i < pad2.len() ==> crate::text::is_ws(#[trigger] pad2[i]),
        name.len() > 0,
        !crate::text::is_ws(name[0]),
        !crate::text::is_ws(name.last()),
    ensures
        parse_event_spec(pad + name + pad2, table) == parse_event_spec(name, table),
{
    crate::text::lemma_trim_padding(pad, name, pad2);
}

/// A name without colons or whitespace that names an event, followed by a
/// colon and at most four modifier letters, parses as that event with the
/// modifiers that the letters set; the name alone parses as the event
/// without modifiers.
pub proof fn lemma_parse_name_with_modifiers(
    name: Seq<char>,
    m: Seq<char>,
    table: Seq<(Seq<char>, Seq<char>, u64)>,
)
    requires
        name.len() > 0,
        forall|i: int| 0 <= i < name.len() ==> !crate::text::is_ws(#[trigger] name[i]) && name[i] != ':',
        m.len() <= 4,
        forall|i: int| 0 <= i < m.len() ==> modifier_char(#[trigger] m[i]),
        base_event_spec(name, table) is Some,
    ensures
        parse_event_spec(name + seq![':'] + m, table) == Ok::<(EventView, EventModifiers), EventErrorView>(
            (base_event_spec(name, table).unwrap(), parse_modifiers_spec(m).0),
        ),
        parse_event_spec(name, table) == Ok::<(EventView, EventModifiers), EventErrorView>(
            (base_event_spec(name, table).unwrap(), no_modifiers()),
        ),
{
    let full = name + seq![':'] + m;
    let k = name.len() as int;
    assert(!crate::text::is_ws(name[0]));
    assert(!crate::text::is_ws(name.last()));
    crate::text::lemma_trim_padding(Seq::empty(), name, Seq::empty());
    crate::text::lemma_first_index_none(name, ':');
    assert(full[0] == name[0]);
    assert(crate::text::trim_start(full) == full);
    if m.len() > 0 {
        assert(full.last() == m.last());
        assert(modifier_char(m.last()));
    } else {
        assert(full.last() == ':');
    }
    assert(crate::text::trim_end(full) == full);
    assert(is_first_index(full, ':', k)) by {
        assert forall|j: int| 0 <= j < k implies full[j] != ':' by {
            assert(full[j] == name[j]);
        }
    }
    crate::text::lemma_first_index_unique(full, ':', k);
    assert(full.subrange(k + 1, full.len() as int) =~= m);
    assert(full.subrange(0, k) =~= name);
    assert(!likely_tracepoint(m)) by {
        if m.contains('_') {
            let i = choose|i: int| 0 <= i < m.len() && m[i] == '_';
            assert(modifier_char(m[i]));
        }
        if m.contains(':') {
            let i = choose|i: int| 0 <= i < m.len() && m[i] == ':';
            assert(modifier_char(m[i]));
        }
    }
    lemma_modifier_letters_known(m);
}

} // verus!
