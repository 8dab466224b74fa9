//! Recording: the attribute written for each event, event IDs, the file
//! mappings of a process, and samples from their fields.

use vstd::prelude::*;
use std::collections::HashSet;
use crate::events::{cache_config, hardware_config, software_config, EventView, PerfEvent};
use crate::perf_core::perf_data::{
    attr_with, comm_record_bytes, event_header_bytes, mmap_record_bytes, name_field, named_record_fits,
    named_record_size, record_too_large_error, with_bit, CommEvent, MmapEvent, PerfDataWriter,
    PerfEventAttr, SampleEvent, PerfEventHeader, PERF_RECORD_COMM, PERF_RECORD_MMAP, PERF_RECORD_SAMPLE,
};
use crate::commands::plan::{
    check_access, cpu_selection, cpus_view, denied_operation, select_cpus, CommandError, Target,
};
use crate::error::PerfError;
use crate::events::{
    no_modifiers, parse_events, parse_events_spec, EventErrorView, EventModifiers, Hardware, ParsedEvent,
};
use crate::perf_core::privilege::{PrivilegeError, PrivilegeLevel};
use crate::perf_core::ringbuf::{cpu_plan_spec, pid_plan_spec, RingBuffer};
use crate::tracepoint::TracepointTable;
use crate::pager::opt_view;
use crate::text::{
    string_of, trim, trim_str,
    chars_to_string, find_char, parse_uint_chars, parse_uint_max, split, split_chars,
    split_whitespace_chars, str_to_chars, sub_chars, first_index, words,
};

verus! {

/// Bits of `sample_type`: what each sample records.
pub const PERF_SAMPLE_IP: u64 = 0x1;
pub const PERF_SAMPLE_TID: u64 = 0x2;
pub const PERF_SAMPLE_TIME: u64 = 0x4;
pub const PERF_SAMPLE_ADDR: u64 = 0x8;
pub const PERF_SAMPLE_READ: u64 = 0x10;
pub const PERF_SAMPLE_CALLCHAIN: u64 = 0x20;
pub const PERF_SAMPLE_ID: u64 = 0x40;
pub const PERF_SAMPLE_CPU: u64 = 0x80;
pub const PERF_SAMPLE_PERIOD: u64 = 0x100;
pub const PERF_SAMPLE_STREAM_ID: u64 = 0x200;
pub const PERF_SAMPLE_RAW: u64 = 0x400;
pub const PERF_SAMPLE_IDENTIFIER: u64 = 0x10000;

/// Tracepoints are sampled at every occurrence; other events every
/// `sample_period` events.
pub open spec fn effective_period_spec(e: EventView, sample_period: u64) -> u64 {
    match e {
        EventView::Tracepoint(_, _, _) => 1,
        _ => sample_period,
    }
}

pub fn effective_sample_period(event: &PerfEvent, sample_period: u64) -> (r: u64)
    ensures
        r == effective_period_spec(event@, sample_period),
{
    match event {
        PerfEvent::Tracepoint(_) => 1,
        _ => sample_period,
    }
}

/// The attribute type and config of an event.
pub open spec fn event_type_config(e: EventView) -> (u32, u64) {
    match e {
        EventView::Hardware(h) => (0, hardware_config(h)),
        EventView::Software(s) => (1, software_config(s)),
        EventView::Tracepoint(_, _, id) => (2, id),
        EventView::Cache(c) => (3, cache_config(c)),
        EventView::Raw(r) => (4, r.config),
    }
}

/// What each sample records: IP, thread, time, period and identifier,
/// with the call chain when asked.
pub open spec fn record_sample_type(callchain: bool) -> u64 {
    if callchain {
        0x10127u64
    } else {
        0x10107u64
    }
}

/// The attribute bits that `record` sets: comm (8), mmap (7) and
/// sample-id-all (18).
pub open spec fn record_bitfields() -> u64 {
    with_bit(with_bit(with_bit(0, 8, true), 7, true), 18, true)
}

/// Whether `r` is the attribute that `record` writes for an event: its
/// type and config, the sample flags, the effective period, and the comm,
/// mmap and sample-id-all bits.
pub open spec fn is_record_attr(r: PerfEventAttr, e: EventView, sample_period: u64, callchain: bool) -> bool {
    &&& attr_with(
        PerfEventAttr { sample_period_or_freq: 0, bitfields: 0, ..r },
        event_type_config(e).0,
        event_type_config(e).1,
        record_sample_type(callchain),
    )
    &&& r.sample_period_or_freq == effective_period_spec(e, sample_period)
    &&& r.bitfields == record_bitfields()
}

/// The attribute that `record` writes for an event.
pub fn event_to_attr(event: &PerfEvent, sample_period: u64, callchain: bool) -> (r: PerfEventAttr)
    ensures
        is_record_attr(r, event@, sample_period, callchain),
{
    let (attr_type, config): (u32, u64) = match event {
        PerfEvent::Hardware(h) => (0u32, h.config()),
        PerfEvent::Software(s) => (1u32, s.config()),
        PerfEvent::Tracepoint(t) => (2u32, t.id),
        PerfEvent::Cache(c) => (3u32, c.config()),
        PerfEvent::Raw(r) => (4u32, r.config),
    };
    let effective_period = effective_sample_period(event, sample_period);
    let mut sample_type: u64 = PERF_SAMPLE_IP | PERF_SAMPLE_TID | PERF_SAMPLE_TIME | PERF_SAMPLE_PERIOD
        | PERF_SAMPLE_IDENTIFIER;
    assert(PERF_SAMPLE_IP | PERF_SAMPLE_TID | PERF_SAMPLE_TIME | PERF_SAMPLE_PERIOD | PERF_SAMPLE_IDENTIFIER
        == 0x10107u64) by (bit_vector);
    if callchain {
        assert(0x10107u64 | 0x20u64 == 0x10127u64) by (bit_vector);
        sample_type = sample_type | PERF_SAMPLE_CALLCHAIN;
    }
    PerfEventAttr::new(attr_type, config, sample_type).with_sample_period(effective_period).with_comm(
        true,
    ).with_mmap(true).with_sample_id_all(true)
}

/// Hands out attribute IDs: 1024 plus a running count modulo 65536.
pub struct EventIdGenerator {
    counter: u64,
}

impl EventIdGenerator {
    /// How many IDs were handed out (modulo 2^64).
    pub closed spec fn count(&self) -> u64 {
        self.counter
    }

    pub fn new() -> (g: Self)
        ensures
            g.count() == 0,
    {
        EventIdGenerator { counter: 0 }
    }

    /// The next ID.
    pub fn generate_event_id(&mut self) -> (id: u64)
        ensures
            id == 1024 + old(self).count() % 65536,
            final(self).count() == (if old(self).count() == u64::MAX {
                0
            } else {
                (old(self).count() + 1) as u64
            }),
    {
        let c = self.counter;
        self.counter = c.wrapping_add(1);
        1024 + c % 65536
    }
}

/// `a - b` modulo 2^64.
pub open spec fn sub_wrapping(a: u64, b: u64) -> u64 {
    if a >= b {
        (a - b) as u64
    } else {
        (a - b + 0x1_0000_0000_0000_0000) as u64
    }
}

/// The file mapping that a line of `/proc/PID/maps` describes:
/// `start-end perms offset dev inode [path]`, hexadecimal addresses, at
/// least five fields, a path that is present and not a `[...]` region.
pub open spec fn maps_line_entry(line: Seq<char>) -> Option<(u64, u64, Seq<char>)> {
    let p = words(line);
    if p.len() < 5 {
        None
    } else {
        match first_index(p[0], '-') {
            None => None,
            Some(i) => match (
                parse_uint_max(p[0].subrange(0, i), 16, u64::MAX as nat),
                parse_uint_max(p[0].subrange(i + 1, p[0].len() as int), 16, u64::MAX as nat),
            ) {
                (Some(s), Some(e)) => {
                    let file = if p.len() > 5 {
                        p[5]
                    } else {
                        Seq::empty()
                    };
                    if file.len() == 0 || file[0] == '[' {
                        None
                    } else {
                        Some((s as u64, sub_wrapping(e as u64, s as u64), file))
                    }
                },
                _ => None,
            },
        }
    }
}

/// The file mappings of a process, in the order of its maps file.
pub open spec fn maps_entries(lines: Seq<Seq<char>>) -> Seq<(u64, u64, Seq<char>)>
    decreases lines.len(),
{
    if lines.len() == 0 {
        Seq::empty()
    } else {
        let prev = maps_entries(lines.drop_last());
        match maps_line_entry(lines.last()) {
            Some(m) => prev.push(m),
            None => prev,
        }
    }
}

fn maps_line(line: &[char]) -> (r: Option<(u64, u64, Vec<char>)>)
    ensures
        match maps_line_entry(line@) {
            Some((s, l, f)) => r matches Some((a, b, c)) && a == s && b == l && c@ == f,
            None => r is None,
        },
{
    let p = split_whitespace_chars(line);
    if p.len() < 5 {
        return None;
    }
    let range = &p[0];
    let dash = match find_char(range.as_slice(), '-') {
        Some(d) => d,
        None => {
            return None;
        },
    };
    let rlen: usize = range.len();
    let start_s = sub_chars(range.as_slice(), 0, dash);
    let end_s = sub_chars(range.as_slice(), dash + 1, rlen);
    let start = parse_uint_chars(start_s.as_slice(), 16, 0xffff_ffff_ffff_ffff);
    let end = parse_uint_chars(end_s.as_slice(), 16, 0xffff_ffff_ffff_ffff);
    match (start, end) {
        (Some(s), Some(e)) => {
            let file: Vec<char> = if p.len() > 5 {
                sub_chars(p[5].as_slice(), 0, p[5].len())
            } else {
                Vec::new()
            };
            if file.len() == 0 || file[0] == '[' {
                None
            } else {
                Some((s, e.wrapping_sub(s), file))
            }
        },
        _ => None,
    }
}

/// The MMAP records of a process's mappings, in order, each with a page
/// offset of zero.
pub open spec fn mmap_records_bytes(pid: u32, tid: u32, entries: Seq<(u64, u64, Seq<char>)>) -> Seq<u8>
    decreases entries.len(),
{
    if entries.len() == 0 {
        Seq::empty()
    } else {
        let (addr, len, file) = entries.last();
        mmap_records_bytes(pid, tid, entries.drop_last()) + mmap_record_bytes(pid, tid, addr, len, 0, file)
    }
}

/// The records that describe a process: a COMM record with its name (the
/// contents of its comm file, trimmed) when that was read, then an MMAP
/// record for each file mapping that its maps file lists, when that was
/// read.
pub open spec fn process_records_bytes(
    pid: u32,
    tid: u32,
    comm_file: Option<Seq<char>>,
    maps_file: Option<Seq<char>>,
) -> Seq<u8> {
    (match comm_file {
        Some(c) => comm_record_bytes(pid, tid, trim(c)),
        None => Seq::empty(),
    }) + (match maps_file {
        Some(m) => mmap_records_bytes(pid, tid, maps_entries(split(m, '\n'))),
        None => Seq::empty(),
    })
}

/// Whether each of those records fits its size field.
pub open spec fn process_records_fit(comm_file: Option<Seq<char>>, maps_file: Option<Seq<char>>) -> bool {
    &&& (comm_file matches Some(c) ==> named_record_fits(14, trim(c)))
    &&& (maps_file matches Some(m) ==> forall|i: int|
        0 <= i < maps_entries(split(m, '\n')).len() ==> named_record_fits(
            38,
            (#[trigger] maps_entries(split(m, '\n'))[i]).2,
        ))
}

proof fn lemma_named_record_len(fixed: int, name: Seq<char>)
    requires
        0 <= fixed,
    ensures
        name_field(fixed, name).len() == named_record_size(fixed, name) - fixed,
        named_record_size(fixed, name) >= fixed + 1,
{
}

proof fn lemma_comm_record_len(pid: u32, tid: u32, comm: Seq<char>)
    ensures
        comm_record_bytes(pid, tid, comm).len() == named_record_size(14, comm),
{
    lemma_named_record_len(14, comm);
    vstd::bytes::lemma_auto_spec_u16_to_from_le_bytes();
    vstd::bytes::lemma_auto_spec_u32_to_from_le_bytes();
    let h = PerfEventHeader { type_: PERF_RECORD_COMM, misc: 0, size: named_record_size(14, comm) as u16 };
    assert(event_header_bytes(h).len() == 6);
}

proof fn lemma_mmap_record_len(pid: u32, tid: u32, addr: u64, len: u64, pgoff: u64, file: Seq<char>)
    ensures
        mmap_record_bytes(pid, tid, addr, len, pgoff, file).len() == named_record_size(38, file),
{
    lemma_named_record_len(38, file);
    vstd::bytes::lemma_auto_spec_u16_to_from_le_bytes();
    vstd::bytes::lemma_auto_spec_u32_to_from_le_bytes();
    vstd::bytes::lemma_auto_spec_u64_to_from_le_bytes();
    let h = PerfEventHeader { type_: PERF_RECORD_MMAP, misc: 0, size: named_record_size(38, file) as u16 };
    assert(event_header_bytes(h).len() == 6);
}

proof fn lemma_mmap_records_prefix_len(pid: u32, tid: u32, entries: Seq<(u64, u64, Seq<char>)>, j: int)
    requires
        0 <= j <= entries.len(),
    ensures
        mmap_records_bytes(pid, tid, entries.take(j)).len() <= mmap_records_bytes(pid, tid, entries).len(),
    decreases entries.len(),
{
    if j < entries.len() {
        assert(entries.drop_last().take(j) =~= entries.take(j));
        lemma_mmap_records_prefix_len(pid, tid, entries.drop_last(), j);
    } else {
        assert(entries.take(j) =~= entries);
    }
}

/// Writes the records that describe a process (see
/// `process_records_bytes`) from the contents of its comm and maps files,
/// where they could be read. Stops at the first record that is too large.
pub fn write_process_events(
    writer: &mut PerfDataWriter,
    pid: u32,
    tid: u32,
    comm_file: Option<String>,
    maps_file: Option<String>,
) -> (r: Result<(), PerfError>)
    ensures
        ({
            let bytes = process_records_bytes(pid, tid, opt_view(comm_file), opt_view(maps_file));
            &&& process_records_fit(opt_view(comm_file), opt_view(maps_file))
                && old(writer).data_size_spec() + bytes.len() <= u64::MAX ==> r is Ok
            &&& r is Ok ==> final(writer).image() == old(writer).image() + bytes
                && final(writer).data_size_spec() == old(writer).data_size_spec() + bytes.len()
        }),
        r matches Err(e) ==> record_too_large_error(e),
        final(writer).header_spec() == old(writer).header_spec(),
        final(writer).data_start_spec() == old(writer).data_start_spec(),
        final(writer).initialized() == old(writer).initialized(),
{
    let ghost total = process_records_bytes(pid, tid, opt_view(comm_file), opt_view(maps_file));
    let ghost comm_part: Seq<u8> = match opt_view(comm_file) {
        Some(c) => comm_record_bytes(pid, tid, trim(c)),
        None => Seq::empty(),
    };
    let ghost maps_part: Seq<u8> = match opt_view(maps_file) {
        Some(m) => mmap_records_bytes(pid, tid, maps_entries(split(m, '\n'))),
        None => Seq::empty(),
    };
    assert(total =~= comm_part + maps_part);
    match &comm_file {
        Some(c) => {
            let name = chars_to_string(trim_str(c.as_str()).as_slice());
            let event = CommEvent::new(pid, tid, name);
            proof {
                lemma_comm_record_len(pid, tid, trim(c@));
            }
            let w = writer.write_comm(&event);
            if w.is_err() {
                return w;
            }
        },
        None => {},
    }
    assert(writer.image() == old(writer).image() + comm_part);
    assert(writer.data_size_spec() == old(writer).data_size_spec() + comm_part.len());
    match &maps_file {
        Some(m) => {
            let events = mmap_events_from_maps(pid, tid, m.as_str());
            let ghost entries = maps_entries(split(m@, '\n'));
            let ghost start = writer.image();
            let ghost start_size = writer.data_size_spec();
            let n: usize = events.len();
            assert(mmap_entries_view(events@).len() == events@.len());
            let mut i: usize = 0;
            while i < n
                invariant
                    0 <= i <= n,
                    n == events@.len(),
                    mmap_entries_view(events@) == entries,
                    forall|k: int|
                        0 <= k < events@.len() ==> (#[trigger] events@[k]).pid == pid && events@[k].tid == tid
                            && events@[k].pgoff == 0,
                    writer.image() == start + mmap_records_bytes(pid, tid, entries.take(i as int)),
                    writer.data_size_spec() == start_size + mmap_records_bytes(
                        pid,
                        tid,
                        entries.take(i as int),
                    ).len(),
                    maps_part == mmap_records_bytes(pid, tid, entries),
                    start == old(writer).image() + comm_part,
                    start_size == old(writer).data_size_spec() + comm_part.len(),
                    total == comm_part + maps_part,
                    total == process_records_bytes(pid, tid, opt_view(comm_file), opt_view(maps_file)),
                    writer.header_spec() == old(writer).header_spec(),
                    writer.data_start_spec() == old(writer).data_start_spec(),
                    writer.initialized() == old(writer).initialized(),
                    process_records_fit(opt_view(comm_file), opt_view(maps_file))
                        && old(writer).data_size_spec() + total.len() <= u64::MAX ==> forall|k: int|
                        0 <= k < entries.len() ==> named_record_fits(38, (#[trigger] entries[k]).2),
                    process_records_fit(opt_view(comm_file), opt_view(maps_file))
                        && old(writer).data_size_spec() + total.len() <= u64::MAX ==> start_size + maps_part.len() <= u64::MAX,
                decreases n - i,
            {
                let ghost e = entries[i as int];
                assert(mmap_entries_view(events@)[i as int] == (events@[i as int].addr, events@[i as int].len, events@[i as int].filename@));
                proof {
                    lemma_mmap_record_len(pid, tid, e.0, e.1, 0, e.2);
                    assert(entries.take(i + 1).drop_last() =~= entries.take(i as int));
                    assert(entries.take(i + 1).last() == e);
                    lemma_mmap_records_prefix_len(pid, tid, entries, i + 1);
                    assert(mmap_records_bytes(pid, tid, entries.take(i + 1)) == mmap_records_bytes(
                        pid,
                        tid,
                        entries.take(i as int),
                    ) + mmap_record_bytes(pid, tid, e.0, e.1, 0, e.2));
                    assert(events@[i as int].filename@ == e.2);
                }
                let w = writer.write_mmap(&events[i]);
                if w.is_err() {
                    return w;
                }
                i = i + 1;
            }
            assert(entries.take(n as int) =~= entries);
        },
        None => {},
    }
    Ok(())
}

/// Where each mapping starts, how long it is and which file it maps.
pub open spec fn mmap_entries_view(s: Seq<MmapEvent>) -> Seq<(u64, u64, Seq<char>)> {
    s.map_values(|m: MmapEvent| (m.addr, m.len, m.filename@))
}

/// The file mapping events of a process from its maps file.
pub fn mmap_events_from_maps(pid: u32, tid: u32, maps: &str) -> (r: Vec<MmapEvent>)
    ensures
        mmap_entries_view(r@) == maps_entries(split(maps@, '\n')),
        forall|i: int| 0 <= i < r@.len() ==> (#[trigger] r@[i]).pid == pid && r@[i].tid == tid && r@[i].pgoff == 0,
{
    let chars = str_to_chars(maps);
    let lines = split_chars(chars.as_slice(), '\n');
    let ghost ls = split(maps@, '\n');
    let n: usize = lines.len();
    let mut out: Vec<MmapEvent> = Vec::new();
    let mut i: usize = 0;
    while i < n
        invariant
            0 <= i <= n,
            n == lines@.len(),
            ls == split(maps@, '\n'),
            ls.len() == n,
            forall|k: int| 0 <= k < n ==> #[trigger] lines@[k]@ == ls[k],
            mmap_entries_view(out@) == maps_entries(ls.subrange(0, i as int)),
            forall|j: int| 0 <= j < out@.len() ==> (#[trigger] out@[j]).pid == pid && out@[j].tid == tid && out@[j].pgoff == 0,
        decreases n - i,
    {
        let ghost pre = ls.subrange(0, i as int);
        let ghost post = ls.subrange(0, i + 1);
        assert(post.drop_last() =~= pre);
        assert(post.last() == ls[i as int]);
        match maps_line(lines[i].as_slice()) {
            Some((a, l, f)) => {
                out.push(MmapEvent { pid, tid, addr: a, len: l, pgoff: 0, filename: chars_to_string(f.as_slice()) });
                assert(mmap_entries_view(out@) =~= maps_entries(ls.subrange(0, i as int)).push((a, l, f@)));
            },
            None => {},
        }
        i = i + 1;
    }
    assert(ls.subrange(0, n as int) =~= ls);
    out
}

/// The fields of a sample record, as far as the record has them.
pub struct SampleFields {
    pub ip: Option<u64>,
    pub pid: Option<u32>,
    pub tid: Option<u32>,
    pub time: Option<u64>,
    pub cpu: Option<u32>,
    pub callchain: Option<Vec<u64>>,
}

/// The sample of a record: present only when its IP, process and thread
/// are; a missing time counts as zero and a missing call chain as empty.
pub fn parse_sample_record(fields: SampleFields, sample_period: u64) -> (r: Option<SampleEvent>)
    ensures
        (fields.ip is Some && fields.pid is Some && fields.tid is Some) <==> r is Some,
        r matches Some(s) ==> {
            &&& s.header == (PerfEventHeader { type_: PERF_RECORD_SAMPLE, misc: 0, size: 24 })
            &&& s.ip == fields.ip.unwrap()
            &&& s.pid == fields.pid.unwrap()
            &&& s.tid == fields.tid.unwrap()
            &&& s.period == sample_period
            &&& s.timestamp == (match fields.time {
                Some(t) => t,
                None => 0,
            })
            &&& s.cpu == fields.cpu
            &&& s.callchain@ == (match fields.callchain {
                Some(c) => c@,
                None => Seq::<u64>::empty(),
            })
        },
{
    let ip = match fields.ip {
        Some(v) => v,
        None => {
            return None;
        },
    };
    let pid = match fields.pid {
        Some(v) => v,
        None => {
            return None;
        },
    };
    let tid = match fields.tid {
        Some(v) => v,
        None => {
            return None;
        },
    };
    let time = match fields.time {
        Some(t) => t,
        None => 0,
    };
    let callchain = match fields.callchain {
        Some(c) => c,
        None => Vec::new(),
    };
    Some(SampleEvent::new(time, ip, pid, tid, sample_period, callchain, fields.cpu))
}

/// The message when there is nothing to record.
pub open spec fn record_usage_message() -> Seq<char> {
    "No command specified. Usage: perf record -- <command> [args...]"@
}

/// The message when no event is left to record.
pub open spec fn record_no_events_message() -> Seq<char> {
    "No events specified. Usage: perf record -e <events> -- <command>"@
}

/// Nanoseconds between samples: a second over the frequency (at least
/// 1 Hz), else the given period, else a millisecond.
pub open spec fn record_period(frequency: Option<u64>, period: Option<u64>) -> u64 {
    match frequency {
        Some(f) => (1_000_000_000u64 / (if f > 1 {
            f
        } else {
            1
        })) as u64,
        None => match period {
            Some(p) => p,
            None => 1_000_000,
        },
    }
}

/// The events and modifiers of parsed events.
pub open spec fn parsed_view(s: Seq<ParsedEvent>) -> Seq<(EventView, EventModifiers)> {
    s.map_values(|p: ParsedEvent| (p.event@, p.modifiers))
}

/// The events that `record` samples: those listed, or CPU cycles.
pub open spec fn record_events(event: Option<Seq<char>>, table: Seq<(Seq<char>, Seq<char>, u64)>) -> Result<
    Seq<(EventView, EventModifiers)>,
    EventErrorView,
> {
    match event {
        Some(s) => parse_events_spec(split(s, ','), table),
        None => Ok(seq![(EventView::Hardware(Hardware::CPU_CYCLES), no_modifiers())]),
    }
}

pub open spec fn opt_str_view(s: Option<&str>) -> Option<Seq<char>> {
    match s {
        Some(x) => Some(x@),
        None => None,
    }
}

/// What `record` does: what it observes, the events, the period, and
/// the output file.
pub struct RecordPlan {
    pub target: Target,
    pub events: Vec<ParsedEvent>,
    pub sample_period: u64,
    pub output_path: String,
}

/// Decides what `record` does from its arguments, the privilege level
/// (or the failure to find it) and the online CPUs (or the failure to
/// find them; they are used only for a system-wide run). It refuses, in
/// this order: a run with nothing to observe, a run that the level does not
/// allow, events that do not parse (or none), and a CPU selection that
/// fails. A system-wide run (all CPUs, or a CPU list) takes precedence
/// over a process ID, and a process ID over a command.
pub fn plan_record(
    pid: Option<u32>,
    all_cpus: bool,
    cpu: Option<&str>,
    output: Option<&str>,
    event: Option<&str>,
    frequency: Option<u64>,
    period: Option<u64>,
    has_command: bool,
    privilege: &Result<PrivilegeLevel, PrivilegeError>,
    online: Result<Vec<u32>, PerfError>,
    tracepoints: &TracepointTable,
) -> (r: Result<RecordPlan, CommandError>)
    ensures
        ({
            let sw = all_cpus || cpu is Some;
            if pid is None && !sw && !has_command {
                r matches Err(CommandError::Message(m)) && m@ == record_usage_message()
            } else {
                match denied_operation(sw, *privilege, "system-wide profiling"@) {
                    Some(op) => r matches Err(CommandError::Perf(PerfError::PermissionDenied { operation }))
                        && operation@ == op,
                    None => match record_events(opt_str_view(event), tracepoints@) {
                        Err(e) => r matches Err(CommandError::Event(x)) && x@ == e,
                        Ok(evs) => if evs.len() == 0 {
                            r matches Err(CommandError::Message(m)) && m@ == record_no_events_message()
                        } else {
                            match r {
                                Ok(p) => {
                                    &&& parsed_view(p.events@) == evs
                                    &&& p.sample_period == record_period(frequency, period)
                                    &&& p.output_path@ == (match output {
                                        Some(o) => o@,
                                        None => "perf.data"@,
                                    })
                                    &&& if sw {
                                        p.target matches Target::Cpus(w) && cpu_selection(
                                            all_cpus,
                                            opt_str_view(cpu),
                                            cpus_view(online),
                                            Ok(w@),
                                        )
                                    } else {
                                        p.target == (match pid {
                                            Some(x) => Target::Pid(x),
                                            None => Target::Command,
                                        })
                                    }
                                },
                                Err(x) => sw && (x matches CommandError::Perf(e) && cpu_selection(
                                    all_cpus,
                                    opt_str_view(cpu),
                                    cpus_view(online),
                                    Err(e),
                                )),
                            }
                        },
                    },
                }
            }
        }),
{
    let sw = all_cpus || cpu.is_some();
    if pid.is_none() && !sw && !has_command {
        return Err(
            CommandError::Message(string_of("No command specified. Usage: perf record -- <command> [args...]")),
        );
    }
    match check_access(sw, privilege, "system-wide profiling") {
        Ok(()) => {},
        Err(e) => {
            return Err(e);
        },
    }
    let events: Vec<ParsedEvent> = match event {
        Some(s) => match parse_events(s, tracepoints) {
            Ok(v) => v,
            Err(e) => {
                return Err(CommandError::Event(e));
            },
        },
        None => {
            let mut v: Vec<ParsedEvent> = Vec::new();
            v.push(ParsedEvent::new(PerfEvent::Hardware(Hardware::CPU_CYCLES)));
            v
        },
    };
    assert(parsed_view(events@) =~= record_events(opt_str_view(event), tracepoints@)->Ok_0);
    if events.len() == 0 {
        return Err(
            CommandError::Message(string_of("No events specified. Usage: perf record -e <events> -- <command>")),
        );
    }
    let sample_period: u64 = match frequency {
        Some(f) => 1_000_000_000u64 / (if f > 1 {
            f
        } else {
            1
        }),
        None => match period {
            Some(p) => p,
            None => 1_000_000,
        },
    };
    let output_path = match output {
        Some(o) => string_of(o),
        None => string_of("perf.data"),
    };
    let target = if sw {
        match select_cpus(all_cpus, cpu, online) {
            Ok(cpus) => Target::Cpus(cpus),
            Err(e) => {
                return Err(CommandError::Perf(e));
            },
        }
    } else {
        match pid {
            Some(x) => Target::Pid(x),
            None => Target::Command,
        }
    };
    Ok(RecordPlan { target, events, sample_period, output_path })
}

/// A sampling buffer with what its samples are written with.
pub struct EventRing {
    pub event_id: u64,
    pub ringbuf: RingBuffer,
    pub sample_period: u64,
    pub sample_type: u64,
}

/// What a recording opens: the attributes, the IDs of each attribute, and
/// the sampling buffers.
pub struct RecordSetup {
    pub attrs: Vec<PerfEventAttr>,
    pub ids: Vec<Vec<u64>>,
    pub rings: Vec<EventRing>,
}

/// `c + k` modulo 2^64.
pub open spec fn wrap_count(c: u64, k: nat) -> u64 {
    ((c + k) % 0x1_0000_0000_0000_0000) as u64
}

/// The ID that the generator hands out after `k` others, from count `c`.
pub open spec fn nth_event_id(c: u64, k: nat) -> u64 {
    (1024 + wrap_count(c, k) % 65536) as u64
}

proof fn lemma_wrap_step(c: u64, k: nat)
    ensures
        wrap_count(c, k + 1) == (if wrap_count(c, k) == u64::MAX {
            0
        } else {
            (wrap_count(c, k) + 1) as u64
        }),
{
}

/// The sampling buffer of an event of a process, as `record` opens it.
pub open spec fn pid_ring_plan(e: EventView, pid: i32, sample_period: u64, call_graph: Option<u16>) -> crate::perf_core::ringbuf::SamplerPlan {
    pid_plan_spec(
        pid,
        effective_period_spec(e, sample_period),
        false,
        call_graph is Some,
        match call_graph {
            Some(m) => m,
            None => 0,
        },
        if e is Tracepoint {
            Some(0u32)
        } else {
            None
        },
        None,
        None,
    )
}

/// Whether a ring is the one `record` opens for an event with an ID.
pub open spec fn ring_for(ring: EventRing, sample_type: u64, e: EventView, id: u64, sample_period: u64) -> bool {
    &&& ring.event_id == id
    &&& ring.sample_period == effective_period_spec(e, sample_period)
    &&& ring.sample_type == sample_type
    &&& ring.ringbuf.stats_view().records_read == 0
    &&& ring.ringbuf.stats_view().lost_samples == 0
}

/// Opens, for each event in order, the attribute, one ID and the sampling
/// buffer for process `pid` (a tracepoint on CPU 0); the first buffer that
/// cannot be opened fails the whole.
pub fn open_rings_for_pid(
    events: &[ParsedEvent],
    pid: i32,
    sample_period: u64,
    call_graph: Option<u16>,
    ids: &mut EventIdGenerator,
) -> (r: Result<RecordSetup, PerfError>)
    ensures
        match r {
            Ok(s) => {
                &&& s.attrs@.len() == events@.len() && s.ids@.len() == events@.len() && s.rings@.len()
                    == events@.len()
                &&& final(ids).count() == wrap_count(old(ids).count(), events@.len())
                &&& forall|i: int|
                    0 <= i < events@.len() ==> {
                        &&& is_record_attr(
                            #[trigger] s.attrs@[i],
                            events@[i].event@,
                            sample_period,
                            call_graph is Some,
                        )
                        &&& s.ids@[i]@ == seq![nth_event_id(old(ids).count(), i as nat)]
                        &&& ring_for(
                            s.rings@[i],
                            s.attrs@[i].sample_type,
                            events@[i].event@,
                            nth_event_id(old(ids).count(), i as nat),
                            sample_period,
                        )
                        &&& s.rings@[i].ringbuf.plan() == Some(
                            pid_ring_plan(events@[i].event@, pid, sample_period, call_graph),
                        )
                    }
            },
            Err(e) => {
                &&& e is CounterSetup || e is RingBufferSetup
                &&& exists|k: nat|
                    0 < k <= events@.len() && final(ids).count() == wrap_count(old(ids).count(), k)
            },
        },
{
    let callchain = call_graph.is_some();
    let max_stack: u16 = match call_graph {
        Some(m) => m,
        None => 0,
    };
    let ghost c0 = ids.count();
    let mut attrs: Vec<PerfEventAttr> = Vec::new();
    let mut all_ids: Vec<Vec<u64>> = Vec::new();
    let mut rings: Vec<EventRing> = Vec::new();
    let mut i: usize = 0;
    while i < events.len()
        invariant
            i <= events@.len(),
            c0 == old(ids).count(),
            attrs@.len() == i && all_ids@.len() == i && rings@.len() == i,
            callchain == call_graph is Some,
            max_stack == (match call_graph {
                Some(m) => m,
                None => 0u16,
            }),
            ids.count() == wrap_count(c0, i as nat),
            forall|k: int|
                0 <= k < i ==> {
                    &&& is_record_attr(#[trigger] attrs@[k], events@[k].event@, sample_period, callchain)
                    &&& all_ids@[k]@ == seq![nth_event_id(c0, k as nat)]
                    &&& ring_for(rings@[k], attrs@[k].sample_type, events@[k].event@, nth_event_id(c0, k as nat), sample_period)
                    &&& rings@[k].ringbuf.plan() == Some(
                        pid_ring_plan(events@[k].event@, pid, sample_period, call_graph),
                    )
                },
        decreases events@.len() - i,
    {
        let ev = &events[i].event;
        let attr = event_to_attr(ev, sample_period, callchain);
        let sample_type = attr.sample_type;
        let effective_period = effective_sample_period(ev, sample_period);
        proof {
            lemma_wrap_step(c0, i as nat);
        }
        let event_id = ids.generate_event_id();
        let cpu: Option<u32> = if ev.is_tracepoint() {
            Some(0)
        } else {
            None
        };
        let ringbuf = match RingBuffer::from_event_for_pid(
            ev,
            pid,
            effective_period,
            false,
            callchain,
            max_stack,
            cpu,
            None,
            None,
        ) {
            Ok(rb) => rb,
            Err(e) => {
                let ghost k: nat = (i + 1) as nat;
                assert(0 < k <= events@.len() && ids.count() == wrap_count(c0, k));
                return Err(e);
            },
        };
        let mut one: Vec<u64> = Vec::new();
        one.push(event_id);
        attrs.push(attr);
        all_ids.push(one);
        rings.push(EventRing { event_id, ringbuf, sample_period: effective_period, sample_type });
        i = i + 1;
    }
    Ok(RecordSetup { attrs, ids: all_ids, rings })
}

/// The sampling buffer of an event on one CPU, as `record` opens it.
pub open spec fn cpu_ring_plan(e: EventView, cpu: u32, sample_period: u64, call_graph: Option<u16>) -> crate::perf_core::ringbuf::SamplerPlan {
    cpu_plan_spec(
        cpu,
        effective_period_spec(e, sample_period),
        false,
        call_graph is Some,
        match call_graph {
            Some(m) => m,
            None => 0,
        },
        None,
        None,
    )
}

proof fn lemma_row_index(i2: int, j2: int, i: int, m: int)
    requires
        0 <= j2 < m,
        0 <= i2 < i,
    ensures
        0 <= i2 * m + j2 < i * m,
{
    assert(0 <= i2 * m) by (nonlinear_arith)
        requires
            0 <= i2,
            0 < m,
    ;
    assert(i2 * m + m <= i * m) by (nonlinear_arith)
        requires
            i2 < i,
            0 < m,
    ;
}

proof fn lemma_wrap_add(c: u64, a: nat, b: nat)
    requires
        b < 0x1_0000_0000_0000_0000,
    ensures
        wrap_count(wrap_count(c, a), b) == wrap_count(c, a + b),
{
    let mm: int = 0x1_0000_0000_0000_0000;
    vstd::arithmetic::div_mod::lemma_add_mod_noop(c + a, b as int, mm);
    vstd::arithmetic::div_mod::lemma_small_mod(b as nat, mm as nat);
    vstd::arithmetic::div_mod::lemma_mod_bound(c + a, mm);
}

/// Opens, for one event, an ID and a sampling buffer on each CPU in order,
/// appended to `rings`; the first that cannot be opened fails the whole.
fn open_cpu_row(
    ev: &PerfEvent,
    sample_type: u64,
    cpus: &[u32],
    sample_period: u64,
    call_graph: Option<u16>,
    ids: &mut EventIdGenerator,
    rings: &mut Vec<EventRing>,
) -> (r: Result<Vec<u64>, PerfError>)
    ensures
        match r {
            Ok(row) => {
                &&& row@.len() == cpus@.len()
                &&& final(rings)@.len() == old(rings)@.len() + cpus@.len()
                &&& final(ids).count() == wrap_count(old(ids).count(), cpus@.len())
                &&& forall|k: int| 0 <= k < old(rings)@.len() ==> #[trigger] final(rings)@[k] == old(rings)@[k]
                &&& forall|j: int|
                    0 <= j < cpus@.len() ==> {
                        &&& #[trigger] row@[j] == nth_event_id(old(ids).count(), j as nat)
                        &&& ring_for(final(rings)@[old(rings)@.len() + j], sample_type, ev@, row@[j], sample_period)
                        &&& final(rings)@[old(rings)@.len() + j].ringbuf.plan() == Some(
                            cpu_ring_plan(ev@, cpus@[j], sample_period, call_graph),
                        )
                    }
            },
            Err(e) => {
                &&& e is CounterSetup || e is RingBufferSetup
                &&& exists|k: nat|
                    0 < k <= cpus@.len() && final(ids).count() == wrap_count(old(ids).count(), k)
            },
        },
{
    let callchain = call_graph.is_some();
    let max_stack: u16 = match call_graph {
        Some(m) => m,
        None => 0,
    };
    let effective_period = effective_sample_period(ev, sample_period);
    let ghost c0 = ids.count();
    let ghost base = rings@.len();
    let ghost start = rings@;
    let mut row: Vec<u64> = Vec::new();
    let mut j: usize = 0;
    while j < cpus.len()
        invariant
            j <= cpus@.len(),
            row@.len() == j,
            rings@.len() == base + j,
            base == old(rings)@.len(),
            start == old(rings)@,
            c0 == old(ids).count(),
            callchain == call_graph is Some,
            max_stack == (match call_graph {
                Some(x) => x,
                None => 0u16,
            }),
            effective_period == effective_period_spec(ev@, sample_period),
            ids.count() == wrap_count(c0, j as nat),
            forall|k: int| 0 <= k < base ==> #[trigger] rings@[k] == start[k],
            forall|j2: int|
                0 <= j2 < j ==> {
                    &&& #[trigger] row@[j2] == nth_event_id(c0, j2 as nat)
                    &&& ring_for(rings@[base + j2], sample_type, ev@, row@[j2], sample_period)
                    &&& rings@[base + j2].ringbuf.plan() == Some(
                        cpu_ring_plan(ev@, cpus@[j2], sample_period, call_graph),
                    )
                },
        decreases cpus@.len() - j,
    {
        proof {
            lemma_wrap_step(c0, j as nat);
        }
        let event_id = ids.generate_event_id();
        let ringbuf = match RingBuffer::from_event_for_cpu(
            ev,
            cpus[j],
            effective_period,
            false,
            callchain,
            max_stack,
            None,
            None,
        ) {
            Ok(rb) => rb,
            Err(e) => {
                assert(ids.count() == wrap_count(c0, (j + 1) as nat));
                return Err(e);
            },
        };
        let ghost old_rings = rings@;
        let ghost old_row = row@;
        rings.push(EventRing { event_id, ringbuf, sample_period: effective_period, sample_type });
        row.push(event_id);
        proof {
            assert forall|j2: int| 0 <= j2 < j + 1 implies {
                &&& #[trigger] row@[j2] == nth_event_id(c0, j2 as nat)
                &&& ring_for(rings@[base + j2], sample_type, ev@, row@[j2], sample_period)
                &&& rings@[base + j2].ringbuf.plan() == Some(
                    cpu_ring_plan(ev@, cpus@[j2], sample_period, call_graph),
                )
            } by {
                if j2 < j {
                    assert(rings@[base + j2] == old_rings[base + j2]);
                    assert(row@[j2] == old_row[j2]);
                }
            }
            assert forall|k: int| 0 <= k < base implies #[trigger] rings@[k] == start[k] by {
                assert(rings@[k] == old_rings[k]);
            }
        }
        j = j + 1;
    }
    Ok(row)
}

/// Opens, for each event in order, the attribute, and for each CPU in
/// order an ID and the sampling buffer of every process on that CPU; the
/// buffer of event `i` on CPU `j` is at `i * cpus.len() + j`. The first
/// buffer that cannot be opened fails the whole.
#[verifier::spinoff_prover]
#[verifier::rlimit(40)]
pub fn open_rings_for_cpus(
    events: &[ParsedEvent],
    cpus: &[u32],
    sample_period: u64,
    call_graph: Option<u16>,
    ids: &mut EventIdGenerator,
) -> (r: Result<RecordSetup, PerfError>)
    ensures
        match r {
            Ok(s) => {
                &&& s.attrs@.len() == events@.len() && s.ids@.len() == events@.len()
                &&& s.rings@.len() == events@.len() * cpus@.len()
                &&& final(ids).count() == wrap_count(old(ids).count(), events@.len() * cpus@.len())
                &&& forall|i: int|
                    0 <= i < events@.len() ==> is_record_attr(
                        #[trigger] s.attrs@[i],
                        events@[i].event@,
                        sample_period,
                        call_graph is Some,
                    ) && s.ids@[i]@.len() == cpus@.len()
                &&& forall|i: int, j: int|
                    0 <= i < events@.len() && 0 <= j < cpus@.len() ==> {
                        &&& #[trigger] s.ids@[i]@[j] == nth_event_id(
                            old(ids).count(),
                            (i * cpus@.len() + j) as nat,
                        )
                        &&& ring_for(
                            s.rings@[i * cpus@.len() + j],
                            s.attrs@[i].sample_type,
                            events@[i].event@,
                            s.ids@[i]@[j],
                            sample_period,
                        )
                        &&& s.rings@[i * cpus@.len() + j].ringbuf.plan() == Some(
                            cpu_ring_plan(events@[i].event@, cpus@[j], sample_period, call_graph),
                        )
                    }
            },
            Err(e) => {
                &&& e is CounterSetup || e is RingBufferSetup
                &&& events@.len() > 0 && cpus@.len() > 0
                &&& exists|k: nat|
                    0 < k <= events@.len() * cpus@.len() && final(ids).count() == wrap_count(
                        old(ids).count(),
                        k,
                    )
            },
        },
{
    let callchain = call_graph.is_some();
    let ghost c0 = ids.count();
    let ghost m = cpus@.len() as int;
    let ncpu: usize = cpus.len();
    let mut attrs: Vec<PerfEventAttr> = Vec::new();
    let mut all_ids: Vec<Vec<u64>> = Vec::new();
    let mut rings: Vec<EventRing> = Vec::new();
    let mut i: usize = 0;
    assert(0 * m == 0) by (nonlinear_arith);
    while i < events.len()
        invariant
            i <= events@.len(),
            m == cpus@.len(),
            m == ncpu,
            c0 == old(ids).count(),
            attrs@.len() == i && all_ids@.len() == i,
            rings@.len() == i * m,
            callchain == call_graph is Some,
            ids.count() == wrap_count(c0, (i * m) as nat),
            forall|i2: int|
                0 <= i2 < i ==> is_record_attr(
                    #[trigger] attrs@[i2],
                    events@[i2].event@,
                    sample_period,
                    callchain,
                ) && all_ids@[i2]@.len() == m,
            forall|i2: int, j2: int|
                0 <= i2 < i && 0 <= j2 < m ==> {
                    &&& #[trigger] all_ids@[i2]@[j2] == nth_event_id(c0, (i2 * m + j2) as nat)
                    &&& ring_for(rings@[i2 * m + j2], attrs@[i2].sample_type, events@[i2].event@, all_ids@[i2]@[j2], sample_period)
                    &&& rings@[i2 * m + j2].ringbuf.plan() == Some(
                        cpu_ring_plan(events@[i2].event@, cpus@[j2], sample_period, call_graph),
                    )
                },
        decreases events@.len() - i,
    {
        let ev = &events[i].event;
        let attr = event_to_attr(ev, sample_period, callchain);
        let ghost c1 = ids.count();
        let ghost old_rings = rings@;
        let row = match open_cpu_row(ev, attr.sample_type, cpus, sample_period, call_graph, ids, &mut rings) {
            Ok(row) => row,
            Err(e) => {
                proof {
                    let k = choose|k: nat| 0 < k <= m && ids.count() == wrap_count(c1, k);
                    lemma_wrap_add(c0, (i * m) as nat, k);
                    assert(i * m + k <= events@.len() * m) by (nonlinear_arith)
                        requires
                            0 < k <= m,
                            i < events@.len(),
                    ;
                    assert(0 < (i * m + k) as nat <= events@.len() * cpus@.len());
                }
                return Err(e);
            },
        };
        let ghost old_ids = all_ids@;
        let ghost old_attrs = attrs@;
        attrs.push(attr);
        all_ids.push(row);
        proof {
            assert(i * m + m == (i + 1) * m) by (nonlinear_arith);
            lemma_wrap_add(c0, (i * m) as nat, m as nat);
            assert forall|i2: int, j2: int| 0 <= i2 < i + 1 && 0 <= j2 < m implies {
                &&& #[trigger] all_ids@[i2]@[j2] == nth_event_id(c0, (i2 * m + j2) as nat)
                &&& ring_for(rings@[i2 * m + j2], attrs@[i2].sample_type, events@[i2].event@, all_ids@[i2]@[j2], sample_period)
                &&& rings@[i2 * m + j2].ringbuf.plan() == Some(
                    cpu_ring_plan(events@[i2].event@, cpus@[j2], sample_period, call_graph),
                )
            } by {
                if i2 < i {
                    lemma_row_index(i2, j2, i as int, m);
                    assert(all_ids@[i2] == old_ids[i2]);
                    assert(attrs@[i2] == old_attrs[i2]);
                    assert(rings@[i2 * m + j2] == old_rings[i2 * m + j2]);
                } else {
                    assert(all_ids@[i2]@[j2] == row@[j2]);
                    lemma_wrap_add(c0, (i * m) as nat, j2 as nat);
                }
            }
            assert forall|i2: int| 0 <= i2 < i + 1 implies is_record_attr(
                #[trigger] attrs@[i2],
                events@[i2].event@,
                sample_period,
                callchain,
            ) && all_ids@[i2]@.len() == m by {
                if i2 < i {
                    assert(all_ids@[i2] == old_ids[i2]);
                    assert(attrs@[i2] == old_attrs[i2]);
                }
            }
        }
        i = i + 1;
    }
    Ok(RecordSetup { attrs, ids: all_ids, rings })
}

/// `Record::parse_record`: the fields of a sample record, or `None` for a
/// record of another kind or one that does not parse. What the record
/// holds comes from the kernel; nothing is stated of it.
#[verifier::external_body]
fn record_sample_fields(record: &perf_event::Record<'_>) -> Option<SampleFields> {
    match record.parse_record() {
        Ok(perf_event::data::Record::Sample(s)) => Some(
            SampleFields {
                ip: s.ip(),
                pid: s.pid(),
                tid: s.tid(),
                time: s.time(),
                cpu: s.cpu(),
                callchain: s.callchain().map(|c| c.to_vec()),
            },
        ),
        _ => None,
    }
}

/// `a + n` modulo 2^64.
pub open spec fn count_after(a: u64, n: nat) -> u64 {
    ((a + n) % 0x1_0000_0000_0000_0000) as u64
}


/// Whether a record's fields hold what a sample needs: its IP, process
/// and thread.
pub open spec fn fields_complete(f: SampleFields) -> bool {
    f.ip is Some && f.pid is Some && f.tid is Some
}

/// Whether `s` is the sample that `parse_sample_record` makes of complete
/// fields with a period.
pub open spec fn sample_of_fields(s: SampleEvent, f: SampleFields, period: u64) -> bool {
    &&& s.header == (PerfEventHeader { type_: PERF_RECORD_SAMPLE, misc: 0, size: 24 })
    &&& s.ip == f.ip.unwrap()
    &&& s.pid == f.pid.unwrap()
    &&& s.tid == f.tid.unwrap()
    &&& s.period == period
    &&& s.timestamp == (match f.time {
        Some(t) => t,
        None => 0,
    })
    &&& s.cpu == f.cpu
    &&& s.callchain@ == (match f.callchain {
        Some(c) => c@,
        None => Seq::<u64>::empty(),
    })
}

/// Whether `out` holds, in order, the samples of the records taken (the
/// fields of each, or `None` for a record that is no sample): one for
/// each record with complete fields, the others left out.
pub open spec fn samples_from(taken: Seq<Option<SampleFields>>, period: u64, out: Seq<SampleEvent>) -> bool
    decreases taken.len(),
{
    if taken.len() == 0 {
        out.len() == 0
    } else {
        match taken.last() {
            Some(f) => if fields_complete(f) {
                &&& out.len() > 0
                &&& sample_of_fields(out.last(), f, period)
                &&& samples_from(taken.drop_last(), period, out.drop_last())
            } else {
                samples_from(taken.drop_last(), period, out)
            },
            None => samples_from(taken.drop_last(), period, out),
        }
    }
}

/// The samples of the records taken, in order, each made by
/// `parse_sample_record` with the period; records without complete
/// fields are left out.
pub fn samples_of(taken: Vec<Option<SampleFields>>, period: u64) -> (r: Vec<SampleEvent>)
    ensures
        samples_from(taken@, period, r@),
        r@.len() <= taken@.len(),
        forall|k: int| 0 <= k < r@.len() ==> (#[trigger] r@[k]).period == period && r@[k].header == (
        PerfEventHeader { type_: PERF_RECORD_SAMPLE, misc: 0, size: 24 }),
{
    let ghost all = taken@;
    let total: usize = taken.len();
    let mut rest = taken;
    let mut out: Vec<SampleEvent> = Vec::new();
    let mut i: usize = 0;
    assert(all.subrange(0, 0) =~= Seq::<Option<SampleFields>>::empty());
    while rest.len() > 0
        invariant
            i <= all.len(),
            all.len() == total,
            rest@ == all.subrange(i as int, all.len() as int),
            samples_from(all.subrange(0, i as int), period, out@),
            out@.len() <= i,
            forall|k: int| 0 <= k < out@.len() ==> (#[trigger] out@[k]).period == period && out@[k].header == (
            PerfEventHeader { type_: PERF_RECORD_SAMPLE, misc: 0, size: 24 }),
        decreases rest@.len(),
    {
        let f = rest.remove(0);
        let ghost prev = out@;
        assert(f == all[i as int]);
        assert(all.subrange(0, i + 1).drop_last() =~= all.subrange(0, i as int));
        assert(all.subrange(0, i + 1).last() == all[i as int]);
        assert(rest@ =~= all.subrange(i + 1, all.len() as int));
        match f {
            Some(fields) => match parse_sample_record(fields, period) {
                Some(sample) => {
                    out.push(sample);
                    assert(out@.drop_last() =~= prev);
                },
                None => {},
            },
            None => {},
        }
        i = i + 1;
    }
    assert(all.subrange(0, i as int) =~= all);
    out
}

/// Takes up to `limit` records from a buffer and keeps the samples among
/// them (see `samples_of`), written with the buffer's period; `true` when
/// the buffer ran out first. The buffer counts each record taken: `limit`
/// of them unless it ran out. What each record holds comes from the kernel.
pub fn drain_samples(ring: &mut EventRing, limit: usize) -> (r: (Vec<SampleEvent>, bool))
    ensures
        r.0@.len() <= limit,
        exists|taken: Seq<Option<SampleFields>>|
            #![trigger samples_from(taken, old(ring).sample_period, r.0@)]
            {
                &&& taken.len() <= limit
                &&& (!r.1 ==> taken.len() == limit)
                &&& final(ring).ringbuf.stats_view().records_read == count_after(
                    old(ring).ringbuf.stats_view().records_read,
                    taken.len(),
                )
                &&& samples_from(taken, old(ring).sample_period, r.0@)
            },
        forall|k: int| 0 <= k < r.0@.len() ==> (#[trigger] r.0@[k]).period == old(ring).sample_period
            && r.0@[k].header == (PerfEventHeader { type_: PERF_RECORD_SAMPLE, misc: 0, size: 24 }),
        final(ring).event_id == old(ring).event_id,
        final(ring).sample_period == old(ring).sample_period,
        final(ring).sample_type == old(ring).sample_type,
        final(ring).ringbuf.plan() == old(ring).ringbuf.plan(),
        final(ring).ringbuf.settings() == old(ring).ringbuf.settings(),
        final(ring).ringbuf.stats_view().lost_samples == old(ring).ringbuf.stats_view().lost_samples,
{
    let period = ring.sample_period;
    let mut taken: Vec<Option<SampleFields>> = Vec::new();
    let mut exhausted = false;
    while taken.len() < limit
        invariant_except_break
            taken@.len() <= limit,
        invariant
            period == old(ring).sample_period,
            ring.event_id == old(ring).event_id,
            ring.sample_period == old(ring).sample_period,
            ring.sample_type == old(ring).sample_type,
            ring.ringbuf.plan() == old(ring).ringbuf.plan(),
            ring.ringbuf.settings() == old(ring).ringbuf.settings(),
            ring.ringbuf.stats_view().lost_samples == old(ring).ringbuf.stats_view().lost_samples,
            ring.ringbuf.stats_view().records_read == count_after(
                old(ring).ringbuf.stats_view().records_read,
                taken@.len(),
            ),
        ensures
            taken@.len() <= limit,
            !exhausted ==> taken@.len() == limit,
        decreases limit - taken@.len(),
    {
        let ghost before = ring.ringbuf.stats_view().records_read;
        let ghost n = taken@.len();
        let fields = match ring.ringbuf.next_record() {
            Some(record) => record_sample_fields(&record),
            None => {
                exhausted = true;
                break;
            },
        };
        proof {
            let a = old(ring).ringbuf.stats_view().records_read;
            assert(ring.ringbuf.stats_view().records_read == count_after(a, n + 1)) by {
                assert(before == ((a + n) % 0x1_0000_0000_0000_0000) as u64);
                assert(((((a + n) % 0x1_0000_0000_0000_0000) as u64) + 1) % 0x1_0000_0000_0000_0000 == (a + n
                    + 1) % 0x1_0000_0000_0000_0000) by (nonlinear_arith);
            }
        }
        taken.push(fields);
    }
    let samples = samples_of(taken, period);
    (samples, exhausted)
}

/// What a recording watches besides its buffers.
#[derive(Debug, Clone, Copy, PartialEq, Eq, Structural)]
pub enum WatchedTarget {
    /// Nothing: the recording runs until it is asked to stop.
    Nothing,
    /// A running process, which the recording does not own.
    Process,
    /// The command that the recording started.
    Child,
}

/// What the recording loop does next.
#[derive(Debug, Clone, Copy, PartialEq, Eq, Structural)]
pub enum LoopAction {
    /// Take the samples from the buffers and go round again.
    Drain,
    /// Stop recording.
    Stop,
    /// Kill the started command, then stop recording.
    KillChildAndStop,
}

/// The next step of the recording loop: a stop request ends it (killing
/// the started command), then a watched target that is gone ends it;
/// otherwise the buffers are drained.
pub open spec fn loop_action_spec(watched: WatchedTarget, shutdown_requested: bool, target_alive: bool) -> LoopAction {
    if shutdown_requested {
        if watched == WatchedTarget::Child {
            LoopAction::KillChildAndStop
        } else {
            LoopAction::Stop
        }
    } else if watched != WatchedTarget::Nothing && !target_alive {
        LoopAction::Stop
    } else {
        LoopAction::Drain
    }
}

/// Decides the next step of the recording loop from what it observed:
/// whether a stop was requested and whether the watched target is alive.
pub fn next_loop_action(watched: WatchedTarget, shutdown_requested: bool, target_alive: bool) -> (a: LoopAction)
    ensures
        a == loop_action_spec(watched, shutdown_requested, target_alive),
{
    if shutdown_requested {
        match watched {
            WatchedTarget::Child => LoopAction::KillChildAndStop,
            _ => LoopAction::Stop,
        }
    } else {
        match watched {
            WatchedTarget::Nothing => LoopAction::Drain,
            _ => if target_alive {
                LoopAction::Drain
            } else {
                LoopAction::Stop
            },
        }
    }
}

/// The (process, thread) pairs seen so far.
pub struct SeenProcesses {
    keys: HashSet<u64>,
}

/// The key of a (process, thread) pair.
pub open spec fn process_key(pid: u32, tid: u32) -> u64 {
    (pid as int * 0x1_0000_0000 + tid as int) as u64
}

impl SeenProcesses {
    pub closed spec fn view(&self) -> Set<(u32, u32)> {
        Set::new(|p: (u32, u32)| self.keys@.contains(process_key(p.0, p.1)))
    }

    pub fn new() -> (r: Self)
        ensures
            r.view() == Set::<(u32, u32)>::empty(),
    {
        let r = SeenProcesses { keys: HashSet::new() };
        assert(r.view() =~= Set::<(u32, u32)>::empty());
        r
    }

    /// Notes a pair; `true` when it had not been seen.
    pub fn insert(&mut self, pid: u32, tid: u32) -> (r: bool)
        ensures
            r == !old(self).view().contains((pid, tid)),
            final(self).view() == old(self).view().insert((pid, tid)),
    {
        broadcast use vstd::std_specs::hash::group_hash_axioms;
        let key: u64 = (pid as u64) * 0x1_0000_0000 + tid as u64;
        assert(key == process_key(pid, tid));
        proof {
            assert forall|a: u32, b: u32, c: u32, d: u32|
                process_key(a, b) == process_key(c, d) implies a == c && b == d by {
                assert(a as int * 0x1_0000_0000 + b as int <= u64::MAX) by (nonlinear_arith)
                    requires
                        a <= u32::MAX,
                        b <= u32::MAX,
                ;
                assert(c as int * 0x1_0000_0000 + d as int <= u64::MAX) by (nonlinear_arith)
                    requires
                        c <= u32::MAX,
                        d <= u32::MAX,
                ;
                assert(a == c && b == d) by (nonlinear_arith)
                    requires
                        a as int * 0x1_0000_0000 + b as int == c as int * 0x1_0000_0000 + d as int,
                        b < 0x1_0000_0000,
                        d < 0x1_0000_0000,
                ;
            }
        }
        let fresh = self.keys.insert(key);
        assert(self.view() =~= old(self).view().insert((pid, tid)));
        fresh
    }
}

} // verus!
