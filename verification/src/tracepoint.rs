//! Kernel tracepoints: identifiers, the table of known tracepoints, and the
//! text formats that tracefs uses for them.
//!
//! Reading tracefs is the caller's business: the functions here take the
//! text of `available_events` and of an `id` file, and a table of the
//! tracepoints that tracefs knows.

use vstd::prelude::*;
use crate::error::PerfError;
use crate::perf_core::cpu::{parse_uint_or_message, uint_parse_error};
use crate::text::{
    chars_eq, chars_to_string, find_char, first_index, parse_uint_chars, parse_uint_max, push_str,
    split, split_chars, str_to_chars, string_of, sub_chars, trim, trim_chars, trim_str,
};

verus! {

/// A kernel tracepoint: subsystem (e.g. `sched`), name (e.g.
/// `sched_switch`) and the numeric ID that the kernel assigned to it.
#[derive(Debug, Clone, PartialEq, Eq)]
pub struct TracepointId {
    /// The subsystem name (e.g. "sched", "syscalls", "irq").
    pub subsystem: String,
    /// The tracepoint name within the subsystem (e.g. "sched_switch").
    pub name: String,
    /// The numeric ID assigned by the kernel.
    pub id: u64,
}

impl View for TracepointId {
    type V = (Seq<char>, Seq<char>, u64);

    open spec fn view(&self) -> (Seq<char>, Seq<char>, u64) {
        (self.subsystem@, self.name@, self.id)
    }
}

/// `subsystem:name`.
pub open spec fn full_name_spec(subsystem: Seq<char>, name: Seq<char>) -> Seq<char> {
    subsystem + seq![':'] + name
}

impl TracepointId {
    /// Creates a tracepoint identifier from its parts.
    pub fn new(subsystem: &str, name: &str, id: u64) -> (r: Self)
        ensures
            r@ == (subsystem@, name@, id),
    {
        TracepointId { subsystem: string_of(subsystem), name: string_of(name), id }
    }

    /// The full name, `subsystem:name`.
    pub fn full_name(&self) -> (r: String)
        ensures
            r@ == full_name_spec(self.subsystem@, self.name@),
    {
        let mut v = str_to_chars(self.subsystem.as_str());
        v.push(':');
        push_str(&mut v, self.name.as_str());
        chars_to_string(v.as_slice())
    }
}

/// The tracepoints that tracefs knows, with their IDs.
#[derive(Debug, Clone)]
pub struct TracepointTable {
    entries: Vec<TracepointId>,
}

/// The ID of the first entry named `subsystem:name`, if any.
pub open spec fn table_lookup(
    entries: Seq<(Seq<char>, Seq<char>, u64)>,
    subsystem: Seq<char>,
    name: Seq<char>,
) -> Option<u64>
    decreases entries.len(),
{
    if entries.len() == 0 {
        None
    } else if entries[0].0 == subsystem && entries[0].1 == name {
        Some(entries[0].2)
    } else {
        table_lookup(entries.drop_first(), subsystem, name)
    }
}

impl View for TracepointTable {
    type V = Seq<(Seq<char>, Seq<char>, u64)>;

    closed spec fn view(&self) -> Seq<(Seq<char>, Seq<char>, u64)> {
        self.entries@.map_values(|t: TracepointId| t@)
    }
}

impl TracepointTable {
    /// An empty table: no tracepoint is known.
    pub fn new() -> (r: Self)
        ensures
            r@ == Seq::<(Seq<char>, Seq<char>, u64)>::empty(),
    {
        let r = TracepointTable { entries: Vec::new() };
        assert(r@ =~= Seq::<(Seq<char>, Seq<char>, u64)>::empty());
        r
    }

    /// Records a tracepoint as known (after the entries already there).
    pub fn insert(&mut self, tp: TracepointId)
        ensures
            final(self)@ == old(self)@.push(tp@),
    {
        self.entries.push(tp);
        assert(self@ =~= old(self)@.push(tp@));
    }

    /// The ID of `subsystem:name`, if the table knows it.
    pub fn lookup(&self, subsystem: &[char], name: &[char]) -> (r: Option<u64>)
        ensures
            r == table_lookup(self@, subsystem@, name@),
    {
        let mut i: usize = 0;
        assert(self@.subrange(0, self@.len() as int) == self@);
        while i < self.entries.len()
            invariant
                i <= self.entries@.len(),
                self@.len() == self.entries@.len(),
                table_lookup(self@, subsystem@, name@) == table_lookup(
                    self@.subrange(i as int, self@.len() as int),
                    subsystem@,
                    name@,
                ),
            decreases self.entries@.len() - i,
        {
            let ghost rest = self@.subrange(i as int, self@.len() as int);
            assert(rest[0] == self.entries@[i as int]@);
            let e = &self.entries[i];
            let s = str_to_chars(e.subsystem.as_str());
            let n = str_to_chars(e.name.as_str());
            if chars_eq(s.as_slice(), subsystem) && chars_eq(n.as_slice(), name) {
                return Some(e.id);
            }
            assert(rest.drop_first() == self@.subrange(i + 1, self@.len() as int));
            i = i + 1;
        }
        None
    }

    /// The full name (`subsystem:name`) of the first entry with this ID.
    pub fn lookup_name(&self, id: u64) -> (r: Option<String>)
        ensures
            match table_name_of(self@, id) {
                Some(n) => r matches Some(s) && s@ == n,
                None => r is None,
            },
    {
        let mut i: usize = 0;
        assert(self@.subrange(0, self@.len() as int) == self@);
        while i < self.entries.len()
            invariant
                i <= self.entries@.len(),
                self@.len() == self.entries@.len(),
                table_name_of(self@, id) == table_name_of(
                    self@.subrange(i as int, self@.len() as int),
                    id,
                ),
            decreases self.entries@.len() - i,
        {
            let ghost rest = self@.subrange(i as int, self@.len() as int);
            assert(rest[0] == self.entries@[i as int]@);
            let e = &self.entries[i];
            if e.id == id {
                return Some(e.full_name());
            }
            assert(rest.drop_first() == self@.subrange(i + 1, self@.len() as int));
            i = i + 1;
        }
        None
    }
}

/// The full name of the first entry with ID `id`, if any.
pub open spec fn table_name_of(entries: Seq<(Seq<char>, Seq<char>, u64)>, id: u64) -> Option<Seq<char>>
    decreases entries.len(),
{
    if entries.len() == 0 {
        None
    } else if entries[0].2 == id {
        Some(full_name_spec(entries[0].0, entries[0].1))
    } else {
        table_name_of(entries.drop_first(), id)
    }
}

/// Errors of tracefs lookups.
#[derive(Debug)]
pub enum TracepointError {
    /// Tracepoint not found in tracefs.
    NotFound { name: String },
    /// tracefs filesystem is not mounted.
    TracefsNotMounted,
    /// Permission denied when accessing tracefs.
    PermissionDenied { path: String },
    /// Malformed ID file in tracefs.
    MalformedId { path: String, source: String },
    /// Malformed content in tracefs file.
    MalformedContent { path: String, message: String },
    /// Failed to read tracefs file.
    FileRead { path: String, source: String },
}

/// The message of a tracefs error.
pub open spec fn tracepoint_error_message(e: TracepointError) -> Seq<char> {
    match e {
        TracepointError::NotFound { name } => "Tracepoint '"@ + name@ + "' not found"@,
        TracepointError::TracefsNotMounted => "tracefs filesystem is not mounted"@,
        TracepointError::PermissionDenied { path } => "Permission denied accessing tracefs at '"@
            + path@ + "'"@,
        TracepointError::MalformedId { path, source } => "Malformed tracepoint ID in '"@ + path@
            + "': "@ + source@,
        TracepointError::MalformedContent { path, message } =>
            "Malformed content in tracefs file '"@ + path@ + "': "@ + message@,
        TracepointError::FileRead { path, source } => "Failed to read tracefs file '"@ + path@
            + "': "@ + source@,
    }
}

impl TracepointError {
    /// The message of this error.
    pub fn to_string(&self) -> (r: String)
        ensures
            r@ == tracepoint_error_message(*self),
    {
        let mut v: Vec<char> = Vec::new();
        match self {
            TracepointError::NotFound { name } => {
                push_str(&mut v, "Tracepoint '");
                push_str(&mut v, name.as_str());
                push_str(&mut v, "' not found");
            },
            TracepointError::TracefsNotMounted => {
                push_str(&mut v, "tracefs filesystem is not mounted");
            },
            TracepointError::PermissionDenied { path } => {
                push_str(&mut v, "Permission denied accessing tracefs at '");
                push_str(&mut v, path.as_str());
                push_str(&mut v, "'");
            },
            TracepointError::MalformedId { path, source } => {
                push_str(&mut v, "Malformed tracepoint ID in '");
                push_str(&mut v, path.as_str());
                push_str(&mut v, "': ");
                push_str(&mut v, source.as_str());
            },
            TracepointError::MalformedContent { path, message } => {
                push_str(&mut v, "Malformed content in tracefs file '");
                push_str(&mut v, path.as_str());
                push_str(&mut v, "': ");
                push_str(&mut v, message.as_str());
            },
            TracepointError::FileRead { path, source } => {
                push_str(&mut v, "Failed to read tracefs file '");
                push_str(&mut v, path.as_str());
                push_str(&mut v, "': ");
                push_str(&mut v, source.as_str());
            },
        }
        chars_to_string(v.as_slice())
    }
}

/// The `(subsystem, name)` pairs listed in a line-by-line `available_events`
/// text: each trimmed, non-empty line split at its first `:`, kept when both
/// sides are non-empty.
pub open spec fn available_events_spec(content: Seq<char>) -> Seq<(Seq<char>, Seq<char>)>
    decreases split(content, '\n').len(),
{
    available_from_lines(split(content, '\n'))
}

/// The pairs that a sequence of lines contributes.
pub open spec fn available_from_lines(lines: Seq<Seq<char>>) -> Seq<(Seq<char>, Seq<char>)>
    decreases lines.len(),
{
    if lines.len() == 0 {
        Seq::empty()
    } else {
        let prev = available_from_lines(lines.drop_last());
        match line_entry(lines.last()) {
            Some(p) => prev.push(p),
            None => prev,
        }
    }
}

/// The pair that one line contributes, if any.
pub open spec fn line_entry(line: Seq<char>) -> Option<(Seq<char>, Seq<char>)> {
    let l = trim(line);
    match first_index(l, ':') {
        Some(i) => if i > 0 && i + 1 < l.len() {
            Some((l.subrange(0, i), l.subrange(i + 1, l.len() as int)))
        } else {
            None
        },
        None => None,
    }
}

fn line_entry_exec(line: &[char]) -> (r: Option<(Vec<char>, Vec<char>)>)
    ensures
        match r {
            Some((a, b)) => line_entry(line@) == Some((a@, b@)),
            None => line_entry(line@) is None,
        },
{
    let l = trim_chars(line);
    match find_char(l.as_slice(), ':') {
        Some(i) => {
            let ln: usize = l.len();
            if i > 0 && i + 1 < ln {
                Some((sub_chars(l.as_slice(), 0, i), sub_chars(l.as_slice(), i + 1, ln)))
            } else {
                None
            }
        },
        None => None,
    }
}

/// Parses the `available_events` text of tracefs into `(subsystem, name)`
/// pairs, in the order of the lines.
pub fn parse_available_events(content: &str) -> (r: Vec<(String, String)>)
    ensures
        r@.len() == available_events_spec(content@).len(),
        forall|i: int|
            0 <= i < r@.len() ==> (#[trigger] r@[i].0@, r@[i].1@) == available_events_spec(
                content@,
            )[i],
{
    let chars = str_to_chars(content);
    let lines = split_chars(chars.as_slice(), '\n');
    let ghost ls = split(content@, '\n');
    let mut out: Vec<(String, String)> = Vec::new();
    let mut i: usize = 0;
    while i < lines.len()
        invariant
            i <= lines@.len(),
            lines@.len() == ls.len(),
            forall|k: int| 0 <= k < lines@.len() ==> #[trigger] lines@[k]@ == ls[k],
            out@.len() == available_from_lines(ls.subrange(0, i as int)).len(),
            forall|k: int|
                0 <= k < out@.len() ==> (#[trigger] out@[k].0@, out@[k].1@)
                    == available_from_lines(ls.subrange(0, i as int))[k],
        decreases lines@.len() - i,
    {
        assert(ls.subrange(0, i + 1).drop_last() == ls.subrange(0, i as int));
        assert(ls.subrange(0, i + 1).last() == lines@[i as int]@);
        match line_entry_exec(lines[i].as_slice()) {
            Some((a, b)) => {
                out.push((chars_to_string(a.as_slice()), chars_to_string(b.as_slice())));
            },
            None => {},
        }
        i = i + 1;
    }
    assert(ls.subrange(0, ls.len() as int) == ls);
    out
}

/// The number in an `id` file of tracefs: the trimmed text as a decimal
/// `u64`.
pub open spec fn tracepoint_id_value(content: Seq<char>) -> Option<nat> {
    parse_uint_max(trim(content), 10, u64::MAX as nat)
}

/// Parses the text of a tracefs `id` file.
pub fn parse_tracepoint_id(content: &str) -> (r: Option<u64>)
    ensures
        match r {
            Some(n) => tracepoint_id_value(content@) == Some(n as nat),
            None => tracepoint_id_value(content@) is None,
        },
{
    let t = trim_str(content);
    parse_uint_chars(t.as_slice(), 10, 0xffff_ffff_ffff_ffff)
}

/// What reading a tracefs file gave.
#[derive(Debug, Clone)]
pub enum TracefsRead {
    /// The file does not exist.
    Missing,
    /// Reading it was not permitted.
    PermissionDenied,
    /// Reading it failed otherwise; the message of the failure.
    Failed(String),
    /// Its contents.
    Content(String),
}

fn tracepoint_perf_error(e: TracepointError) -> (r: PerfError)
    ensures
        r matches PerfError::Tracepoint { source } && source@ == tracepoint_error_message(e),
{
    PerfError::Tracepoint { source: e.to_string() }
}

/// The error is a tracefs error with this message.
pub open spec fn is_tracepoint_error(e: PerfError, msg: Seq<char>) -> bool {
    e matches PerfError::Tracepoint { source } && source@ == msg
}

/// Where tracefs is: `/sys/kernel/tracing`, else `/sys/kernel/debug/tracing`,
/// whichever exists.
pub fn find_tracefs_path(primary_exists: bool, fallback_exists: bool) -> (r: Result<String, PerfError>)
    ensures
        primary_exists ==> (r matches Ok(p) && p@ == "/sys/kernel/tracing"@),
        !primary_exists && fallback_exists ==> (r matches Ok(p) && p@ == "/sys/kernel/debug/tracing"@),
        !primary_exists && !fallback_exists ==> (r matches Err(e) && is_tracepoint_error(
            e,
            "tracefs filesystem is not mounted"@,
        )),
{
    if primary_exists {
        return Ok(string_of("/sys/kernel/tracing"));
    }
    if fallback_exists {
        return Ok(string_of("/sys/kernel/debug/tracing"));
    }
    Err(tracepoint_perf_error(TracepointError::TracefsNotMounted))
}

/// The ID that an `id` file gives for `subsystem:name`, or the message of
/// the failure: a missing file is `NotFound`, a refused read
/// `PermissionDenied`, another failure or a text that is not a `u64`
/// `MalformedId`.
pub open spec fn id_lookup_spec(
    subsystem: Seq<char>,
    name: Seq<char>,
    path: Seq<char>,
    file: TracefsRead,
) -> Result<u64, Seq<char>> {
    match file {
        TracefsRead::Missing => Err("Tracepoint '"@ + full_name_spec(subsystem, name) + "' not found"@),
        TracefsRead::PermissionDenied => Err("Permission denied accessing tracefs at '"@ + path + "'"@),
        TracefsRead::Failed(m) => Err("Malformed tracepoint ID in '"@ + path + "': "@ + m@),
        TracefsRead::Content(c) => match tracepoint_id_value(c@) {
            Some(n) => Ok(n as u64),
            None => Err("Malformed tracepoint ID in '"@ + path + "': "@ + uint_parse_error(trim(c@))),
        },
    }
}

/// The ID of the tracepoint `subsystem:event` from its `id` file at
/// `id_path`.
pub fn get_tracepoint_id(subsystem: &str, event: &str, id_path: &str, file: &TracefsRead) -> (r: Result<
    u64,
    PerfError,
>)
    ensures
        match id_lookup_spec(subsystem@, event@, id_path@, *file) {
            Ok(n) => r == Ok::<u64, PerfError>(n),
            Err(m) => r matches Err(e) && is_tracepoint_error(e, m),
        },
{
    match file {
        TracefsRead::Missing => {
            let mut v = str_to_chars(subsystem);
            v.push(':');
            push_str(&mut v, event);
            assert(v@ =~= full_name_spec(subsystem@, event@));
            Err(tracepoint_perf_error(TracepointError::NotFound { name: chars_to_string(v.as_slice()) }))
        },
        TracefsRead::PermissionDenied => Err(
            tracepoint_perf_error(TracepointError::PermissionDenied { path: string_of(id_path) }),
        ),
        TracefsRead::Failed(m) => Err(
            tracepoint_perf_error(
                TracepointError::MalformedId { path: string_of(id_path), source: string_of(m.as_str()) },
            ),
        ),
        TracefsRead::Content(c) => {
            let t = trim_str(c.as_str());
            match parse_uint_or_message(t.as_slice(), 0xffff_ffff_ffff_ffff) {
                Ok(n) => Ok(n),
                Err(msg) => Err(
                    tracepoint_perf_error(
                        TracepointError::MalformedId { path: string_of(id_path), source: msg },
                    ),
                ),
            }
        },
    }
}

impl TracepointId {
    /// The tracepoint `subsystem:name` with the ID of its `id` file.
    pub fn from_name(subsystem: &str, name: &str, id_path: &str, file: &TracefsRead) -> (r: Result<
        TracepointId,
        PerfError,
    >)
        ensures
            match id_lookup_spec(subsystem@, name@, id_path@, *file) {
                Ok(n) => r matches Ok(t) && t@ == (subsystem@, name@, n),
                Err(m) => r matches Err(e) && is_tracepoint_error(e, m),
            },
    {
        match get_tracepoint_id(subsystem, name, id_path, file) {
            Ok(id) => Ok(TracepointId::new(subsystem, name, id)),
            Err(e) => Err(e),
        }
    }
}

/// The tracepoints that the `available_events` file lists, or the
/// message of the failure to read it (a missing file counts as a failed
/// read with the given message).
pub open spec fn discover_spec(path: Seq<char>, file: TracefsRead) -> Result<Seq<(Seq<char>, Seq<char>)>, Seq<char>> {
    match file {
        TracefsRead::PermissionDenied => Err("Permission denied accessing tracefs at '"@ + path + "'"@),
        TracefsRead::Failed(m) => Err("Failed to read tracefs file '"@ + path + "': "@ + m@),
        TracefsRead::Missing => Err("Failed to read tracefs file '"@ + path + "': "@
            + "No such file or directory (os error 2)"@),
        TracefsRead::Content(c) => Ok(available_events_spec(c@)),
    }
}

/// The tracepoints of the `available_events` file at `path`.
pub fn discover_tracepoints(path: &str, file: &TracefsRead) -> (r: Result<Vec<(String, String)>, PerfError>)
    ensures
        match discover_spec(path@, *file) {
            Ok(list) => r matches Ok(v) && v@.len() == list.len() && forall|i: int|
                0 <= i < v@.len() ==> (#[trigger] v@[i].0@, v@[i].1@) == list[i],
            Err(m) => r matches Err(e) && is_tracepoint_error(e, m),
        },
{
    match file {
        TracefsRead::PermissionDenied => Err(
            tracepoint_perf_error(TracepointError::PermissionDenied { path: string_of(path) }),
        ),
        TracefsRead::Failed(m) => Err(
            tracepoint_perf_error(
                TracepointError::FileRead { path: string_of(path), source: string_of(m.as_str()) },
            ),
        ),
        TracefsRead::Missing => Err(
            tracepoint_perf_error(
                TracepointError::FileRead {
                    path: string_of(path),
                    source: string_of("No such file or directory (os error 2)"),
                },
            ),
        ),
        TracefsRead::Content(c) => Ok(parse_available_events(c.as_str())),
    }
}

} // verus!
