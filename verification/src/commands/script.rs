//! Dumping recorded samples: event names from attributes, symbols with
//! their offsets and source locations, and timestamps.

use std::collections::HashMap;
use vstd::prelude::*;
use crate::perf_core::perf_data::{Event, PerfEventAttr};
use crate::symbols::SymbolInfo;
use crate::tracepoint::{full_name_spec, table_name_of, TracepointTable};
use crate::events::{event_name_spec, EventView, Software};
use crate::commands::record::is_record_attr;
use crate::text::{
    chars_to_string, dec_chars, fmt_dec, fmt_hex, hex_chars, pad_left, pad_left_chars, push_all,
    push_str, split, split_chars, str_to_chars, string_of,
};

verus! {

broadcast use vstd::std_specs::hash::group_hash_axioms;

pub const PERF_TYPE_HARDWARE: u32 = 0;
pub const PERF_TYPE_SOFTWARE: u32 = 1;
pub const PERF_TYPE_TRACEPOINT: u32 = 2;
pub const PERF_TYPE_HW_CACHE: u32 = 3;
pub const PERF_TYPE_RAW: u32 = 4;

/// The full name of the tracepoint with this ID, among the tracepoints
/// that tracefs lists.
pub fn lookup_tracepoint_name(id: u64, tracepoints: &TracepointTable) -> (r: Option<String>)
    ensures
        match table_name_of(tracepoints@, id) {
            Some(n) => r matches Some(s) && s@ == n,
            None => r is None,
        },
{
    tracepoints.lookup_name(id)
}

pub open spec fn hardware_config_name(config: u64) -> Option<Seq<char>> {
    if config == 0 {
        Some("cpu-cycles"@)
    } else if config == 1 {
        Some("instructions"@)
    } else if config == 2 {
        Some("cache-references"@)
    } else if config == 3 {
        Some("cache-misses"@)
    } else if config == 4 {
        Some("branch-instructions"@)
    } else if config == 5 {
        Some("branch-misses"@)
    } else if config == 6 {
        Some("bus-cycles"@)
    } else if config == 7 {
        Some("stalled-cycles-frontend"@)
    } else if config == 8 {
        Some("stalled-cycles-backend"@)
    } else if config == 9 {
        Some("ref-cycles"@)
    } else {
        None
    }
}

pub open spec fn software_config_name(config: u64) -> Option<Seq<char>> {
    if config == 0 {
        Some("cpu-clock"@)
    } else if config == 1 {
        Some("task-clock"@)
    } else if config == 2 {
        Some("page-faults"@)
    } else if config == 3 {
        Some("context-switches"@)
    } else if config == 4 {
        Some("cpu-migrations"@)
    } else if config == 5 {
        Some("minor-faults"@)
    } else if config == 6 {
        Some("major-faults"@)
    } else if config == 7 {
        Some("alignment-faults"@)
    } else if config == 8 {
        Some("emulation-faults"@)
    } else if config == 9 {
        Some("dummy"@)
    } else if config == 10 {
        Some("bpf-output"@)
    } else {
        None
    }
}

/// The name of the event that an attribute counts.
pub open spec fn attr_event_name(
    type_: u32,
    config: u64,
    tracepoints: Seq<(Seq<char>, Seq<char>, u64)>,
) -> Seq<char> {
    if type_ == PERF_TYPE_HARDWARE {
        match hardware_config_name(config) {
            Some(n) => n,
            None => "hardware:"@ + fmt_dec(config as nat),
        }
    } else if type_ == PERF_TYPE_SOFTWARE {
        match software_config_name(config) {
            Some(n) => n,
            None => "software:"@ + fmt_dec(config as nat),
        }
    } else if type_ == PERF_TYPE_TRACEPOINT {
        match table_name_of(tracepoints, config) {
            Some(n) => n,
            None => "tracepoint:"@ + fmt_dec(config as nat),
        }
    } else if type_ == PERF_TYPE_HW_CACHE {
        "cache:"@ + fmt_dec(config as nat)
    } else if type_ == PERF_TYPE_RAW {
        "r"@ + fmt_hex(config as nat)
    } else {
        "unknown:"@ + fmt_dec(type_ as nat)
    }
}

fn prefixed_dec(prefix: &str, n: u64) -> (r: String)
    ensures
        r@ == prefix@ + fmt_dec(n as nat),
{
    let mut v = str_to_chars(prefix);
    let d = dec_chars(n);
    push_all(&mut v, d.as_slice());
    chars_to_string(v.as_slice())
}

/// The name of the event that an attribute counts; tracepoints are named
/// from the tracepoints that tracefs lists.
pub fn attr_to_event_name(attr: &PerfEventAttr, tracepoints: &TracepointTable) -> (r: String)
    ensures
        r@ == attr_event_name(attr.type_, attr.config, tracepoints@),
{
    let c = attr.config;
    if attr.type_ == PERF_TYPE_HARDWARE {
        if c == 0 {
            string_of("cpu-cycles")
        } else if c == 1 {
            string_of("instructions")
        } else if c == 2 {
            string_of("cache-references")
        } else if c == 3 {
            string_of("cache-misses")
        } else if c == 4 {
            string_of("branch-instructions")
        } else if c == 5 {
            string_of("branch-misses")
        } else if c == 6 {
            string_of("bus-cycles")
        } else if c == 7 {
            string_of("stalled-cycles-frontend")
        } else if c == 8 {
            string_of("stalled-cycles-backend")
        } else if c == 9 {
            string_of("ref-cycles")
        } else {
            prefixed_dec("hardware:", c)
        }
    } else if attr.type_ == PERF_TYPE_SOFTWARE {
        if c == 0 {
            string_of("cpu-clock")
        } else if c == 1 {
            string_of("task-clock")
        } else if c == 2 {
            string_of("page-faults")
        } else if c == 3 {
            string_of("context-switches")
        } else if c == 4 {
            string_of("cpu-migrations")
        } else if c == 5 {
            string_of("minor-faults")
        } else if c == 6 {
            string_of("major-faults")
        } else if c == 7 {
            string_of("alignment-faults")
        } else if c == 8 {
            string_of("emulation-faults")
        } else if c == 9 {
            string_of("dummy")
        } else if c == 10 {
            string_of("bpf-output")
        } else {
            prefixed_dec("software:", c)
        }
    } else if attr.type_ == PERF_TYPE_TRACEPOINT {
        match lookup_tracepoint_name(c, tracepoints) {
            Some(n) => n,
            None => prefixed_dec("tracepoint:", c),
        }
    } else if attr.type_ == PERF_TYPE_HW_CACHE {
        prefixed_dec("cache:", c)
    } else if attr.type_ == PERF_TYPE_RAW {
        let mut v: Vec<char> = Vec::new();
        v.push('r');
        let h = hex_chars(c);
        push_all(&mut v, h.as_slice());
        assert(v@ =~= "r"@ + fmt_hex(c as nat)) by {
            reveal_strlit("r");
        }
        chars_to_string(v.as_slice())
    } else {
        prefixed_dec("unknown:", attr.type_ as u64)
    }
}

/// The last `/`-separated piece of a path: the file name.
pub open spec fn file_name_of(path: Seq<char>) -> Seq<char> {
    split(path, '/').last()
}

pub fn file_name_chars(path: &str) -> (r: Vec<char>)
    ensures
        r@ == file_name_of(path@),
{
    let chars = str_to_chars(path);
    let parts = split_chars(chars.as_slice(), '/');
    proof {
        crate::text::lemma_split_nonempty(path@, '/');
    }
    let n: usize = parts.len();
    let last = &parts[n - 1];
    crate::text::sub_chars(last.as_slice(), 0, last.len())
}

/// `name+0xOFF` where the address lies past the symbol's start, the name
/// alone where it does not; then ` (file:line)` where the source location
/// is known, with the file's name alone.
pub open spec fn symbol_with_source(
    name: Seq<char>,
    start: u64,
    file: Option<Seq<char>>,
    line: Option<u32>,
    addr: u64,
) -> Seq<char> {
    let base = if addr > start {
        name + "+0x"@ + fmt_hex((addr - start) as nat)
    } else {
        name
    };
    match (file, line) {
        (Some(f), Some(l)) => base + " ("@ + file_name_of(f) + ":"@ + fmt_dec(l as nat) + ")"@,
        _ => base,
    }
}

pub open spec fn opt_string_view(o: Option<String>) -> Option<Seq<char>> {
    match o {
        Some(s) => Some(s@),
        None => None,
    }
}

/// Appends ` (file:line)` when both are known.
pub fn push_source_location(v: &mut Vec<char>, file: &Option<String>, line: Option<u32>)
    ensures
        final(v)@ == match (opt_string_view(*file), line) {
            (Some(f), Some(l)) => old(v)@ + " ("@ + file_name_of(f) + ":"@ + fmt_dec(l as nat) + ")"@,
            _ => old(v)@,
        },
{
    match (file, line) {
        (Some(f), Some(l)) => {
            push_str(v, " (");
            let name = file_name_chars(f.as_str());
            push_all(v, name.as_slice());
            push_str(v, ":");
            let d = dec_chars(l as u64);
            push_all(v, d.as_slice());
            push_str(v, ")");
        },
        _ => {},
    }
}

/// A symbol as `script` prints it for an address.
pub fn format_symbol_with_source(info: &SymbolInfo, addr: u64) -> (r: String)
    ensures
        r@ == symbol_with_source(
            info.name@,
            info.start_addr,
            opt_string_view(info.source_file),
            info.line,
            addr,
        ),
{
    let mut v = str_to_chars(info.name.as_str());
    let offset: u64 = if addr > info.start_addr {
        addr - info.start_addr
    } else {
        0
    };
    if offset > 0 {
        push_str(&mut v, "+0x");
        let h = hex_chars(offset);
        push_all(&mut v, h.as_slice());
    }
    push_source_location(&mut v, &info.source_file, info.line);
    chars_to_string(v.as_slice())
}

/// Seconds, a point, and nanoseconds in nine digits.
pub open spec fn timestamp_text(nanos: u64) -> Seq<char> {
    fmt_dec((nanos / 1_000_000_000) as nat) + "."@ + pad_left(
        fmt_dec((nanos % 1_000_000_000) as nat),
        9,
        '0',
    )
}

/// A time in nanoseconds as `seconds.nanoseconds`.
pub fn format_timestamp(nanos: u64) -> (r: String)
    ensures
        r@ == timestamp_text(nanos),
{
    let secs = nanos / 1_000_000_000;
    let subsec = nanos % 1_000_000_000;
    let mut v = dec_chars(secs);
    push_str(&mut v, ".");
    let d = dec_chars(subsec);
    let p = pad_left_chars(d.as_slice(), 9, '0');
    push_all(&mut v, p.as_slice());
    chars_to_string(v.as_slice())
}

/// An address as `0x` and sixteen hexadecimal digits.
pub open spec fn address_text(addr: u64) -> Seq<char> {
    "0x"@ + pad_left(fmt_hex(addr as nat), 16, '0')
}

/// An address as `script` prints it: by its symbol (see
/// `format_symbol_with_source`) when one was resolved, else in hex.
pub fn format_resolved(addr: u64, symbol: Option<&SymbolInfo>) -> (r: String)
    ensures
        r@ == match symbol {
            Some(info) => symbol_with_source(
                info.name@,
                info.start_addr,
                opt_string_view(info.source_file),
                info.line,
                addr,
            ),
            None => address_text(addr),
        },
{
    match symbol {
        Some(info) => format_symbol_with_source(info, addr),
        None => {
            let mut v: Vec<char> = Vec::new();
            push_str(&mut v, "0x");
            let h = hex_chars(addr);
            let p = pad_left_chars(h.as_slice(), 16, '0');
            push_all(&mut v, p.as_slice());
            chars_to_string(v.as_slice())
        },
    }
}


/// The events that `script` shows under the name they are given elsewhere
/// (see `event_name_spec`): counters but the cgroup-switch counter, which
/// it shows by number; raw events; and tracepoints whose ID the table gives
/// that name first. Cache events it shows by number.
pub open spec fn script_names_agree(e: EventView, tracepoints: Seq<(Seq<char>, Seq<char>, u64)>) -> bool {
    match e {
        EventView::Hardware(_) => true,
        EventView::Software(sw) => sw != Software::CGROUP_SWITCHES,
        EventView::Raw(_) => true,
        EventView::Tracepoint(s, n, id) => table_name_of(tracepoints, id) == Some(full_name_spec(s, n)),
        EventView::Cache(_) => false,
    }
}

/// `script` names the attribute that `record` writes for an event by the
/// event's own name, for the events above.
pub proof fn lemma_script_names_recorded_event(
    attr: PerfEventAttr,
    e: EventView,
    sample_period: u64,
    callchain: bool,
    tracepoints: Seq<(Seq<char>, Seq<char>, u64)>,
)
    requires
        is_record_attr(attr, e, sample_period, callchain),
        script_names_agree(e, tracepoints),
    ensures
        attr_event_name(attr.type_, attr.config, tracepoints) == event_name_spec(e),
{
    reveal_strlit("r");
    assert("r"@ =~= seq!['r']);
}

/// The process names after one COMM record: the thread's name is the
/// record's, and the process keeps the name it had, else takes the record's.
pub open spec fn comm_step(names: Map<u32, Seq<char>>, pid: u32, tid: u32, comm: Seq<char>) -> Map<
    u32,
    Seq<char>,
> {
    let by_thread = names.insert(tid, comm);
    if by_thread.contains_key(pid) {
        by_thread
    } else {
        by_thread.insert(pid, comm)
    }
}

/// The process names that the COMM records among `events` give, in order.
pub open spec fn names_from(events: Seq<Event>) -> Map<u32, Seq<char>>
    decreases events.len(),
{
    if events.len() == 0 {
        Map::empty()
    } else {
        let before = names_from(events.drop_last());
        match events.last() {
            Event::Comm(c) => comm_step(before, c.pid, c.tid, c.comm@),
            _ => before,
        }
    }
}

/// The name that `script` shows for a sample: that of its thread, else
/// that of its process, else `:` and the process ID.
pub open spec fn sample_comm(names: Map<u32, Seq<char>>, pid: u32, tid: u32) -> Seq<char> {
    if names.contains_key(tid) {
        names[tid]
    } else if names.contains_key(pid) {
        names[pid]
    } else {
        ":"@ + fmt_dec(pid as nat)
    }
}

/// Names of threads and processes, by ID, as COMM records give them.
pub struct ProcessNames {
    names: HashMap<u32, String>,
}

impl View for ProcessNames {
    type V = Map<u32, Seq<char>>;

    closed spec fn view(&self) -> Map<u32, Seq<char>> {
        self.names@.map_values(|s: String| s@)
    }
}

impl ProcessNames {
    /// No names.
    pub fn new() -> (r: Self)
        ensures
            r@ == Map::<u32, Seq<char>>::empty(),
    {
        let r = ProcessNames { names: HashMap::new() };
        assert(r@ =~= Map::<u32, Seq<char>>::empty());
        r
    }

    /// Takes in one COMM record.
    pub fn add_comm(&mut self, pid: u32, tid: u32, comm: &String)
        ensures
            final(self)@ == comm_step(old(self)@, pid, tid, comm@),
    {
        let ghost c = comm@;
        self.names.insert(tid, comm.clone());
        assert(self@ =~= old(self)@.insert(tid, c));
        if !self.names.contains_key(&pid) {
            self.names.insert(pid, comm.clone());
            assert(self@ =~= old(self)@.insert(tid, c).insert(pid, c));
        }
    }

    /// The names that the COMM records among `events` give.
    pub fn from_events(events: &Vec<Event>) -> (r: Self)
        ensures
            r@ == names_from(events@),
    {
        let mut names = ProcessNames::new();
        let n = events.len();
        let mut i: usize = 0;
        while i < n
            invariant
                0 <= i <= n,
                n == events@.len(),
                names@ == names_from(events@.take(i as int)),
            decreases n - i,
        {
            assert(events@.take(i + 1).drop_last() =~= events@.take(i as int));
            match &events[i] {
                Event::Comm(c) => names.add_comm(c.pid, c.tid, &c.comm),
                _ => {},
            }
            i = i + 1;
        }
        assert(events@.take(n as int) =~= events@);
        names
    }

    /// The name that `script` shows for a sample of thread `tid` of
    /// process `pid`.
    pub fn sample_comm(&self, pid: u32, tid: u32) -> (r: String)
        ensures
            r@ == sample_comm(self@, pid, tid),
    {
        match self.names.get(&tid) {
            Some(c) => c.clone(),
            None => match self.names.get(&pid) {
                Some(c) => c.clone(),
                None => {
                    let mut v: Vec<char> = Vec::new();
                    push_str(&mut v, ":");
                    let d = dec_chars(pid as u64);
                    push_all(&mut v, d.as_slice());
                    chars_to_string(v.as_slice())
                },
            },
        }
    }
}

/// A thread's latest COMM record names its samples, and a process keeps
/// the first name it was given while its threads are renamed.
pub proof fn lemma_latest_thread_name(names: Map<u32, Seq<char>>, pid: u32, tid: u32, other: u32, comm: Seq<char>)
    requires
        names.contains_key(pid),
        pid != tid,
    ensures
        sample_comm(comm_step(names, pid, tid, comm), other, tid) == comm,
        comm_step(names, pid, tid, comm)[pid] == names[pid],
{
}

} // verus!
