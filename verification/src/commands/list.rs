//! Listing events: what each event is shown as, and which events a filter
//! selects.

use vstd::prelude::*;
use crate::arch::{arch_events_spec, get_arch_events, Arch, PmuEvent, PmuEventView, events_view, generic_events_spec, merge_by_name};
use crate::text::{
    chars_to_string, contains_chars, contains_seq, find_char, first_index, lowercase,
    lowercase_chars, pad_right, pad_right_chars, push_all, push_str, str_to_chars, string_of,
    sub_chars,
};

verus! {

/// An event as the list shows it.
#[derive(Debug, Clone)]
pub struct EventInfo {
    pub name: String,
    pub aliases: Vec<String>,
    pub category: String,
    pub description: String,
    pub detailed_description: String,
}

pub ghost struct EventInfoView {
    pub name: Seq<char>,
    pub aliases: Seq<Seq<char>>,
    pub category: Seq<char>,
    pub description: Seq<char>,
    pub detailed_description: Seq<char>,
}

impl View for EventInfo {
    type V = EventInfoView;

    open spec fn view(&self) -> EventInfoView {
        EventInfoView {
            name: self.name@,
            aliases: self.aliases@.map_values(|s: String| s@),
            category: self.category@,
            description: self.description@,
            detailed_description: self.detailed_description@,
        }
    }
}

pub open spec fn infos_view(s: Seq<EventInfo>) -> Seq<EventInfoView> {
    s.map_values(|e: EventInfo| e@)
}

/// A PMU event as the list shows it: its description serves as both the
/// short and the detailed one.
pub open spec fn info_of_pmu(e: PmuEventView) -> EventInfoView {
    EventInfoView {
        name: e.name,
        aliases: e.aliases,
        category: e.category,
        description: e.description,
        detailed_description: e.description,
    }
}

impl EventInfo {
    /// The list entry of a PMU event.
    pub fn from_pmu(event: PmuEvent) -> (r: EventInfo)
        ensures
            r@ == info_of_pmu(event@),
    {
        let description = event.description.clone();
        EventInfo {
            name: event.name,
            aliases: event.aliases,
            category: event.category,
            description,
            detailed_description: event.description,
        }
    }
}

impl From<PmuEvent> for EventInfo {
    fn from(event: PmuEvent) -> (r: EventInfo) {
        let description = event.description.clone();
        EventInfo {
            name: event.name,
            aliases: event.aliases,
            category: event.category,
            description,
            detailed_description: event.description,
        }
    }
}

impl vstd::std_specs::convert::FromSpecImpl<PmuEvent> for EventInfo {
    open spec fn obeys_from_spec() -> bool {
        true
    }

    open spec fn from_spec(event: PmuEvent) -> EventInfo {
        EventInfo {
            name: event.name,
            aliases: event.aliases,
            category: event.category,
            description: event.description,
            detailed_description: event.description,
        }
    }
}

fn info(name: &str, category: &str, description: &str, detailed: &str) -> (r: EventInfo)
    ensures
        r@ == (EventInfoView {
            name: name@,
            aliases: seq![],
            category: category@,
            description: description@,
            detailed_description: detailed@,
        }),
{
    let r = EventInfo {
        name: string_of(name),
        aliases: Vec::new(),
        category: string_of(category),
        description: string_of(description),
        detailed_description: string_of(detailed),
    };
    assert(r@.aliases =~= seq![]);
    r
}

fn info_with_alias(name: &str, alias: &str, category: &str, description: &str, detailed: &str) -> (r:
    EventInfo)
    ensures
        r@ == (EventInfoView {
            name: name@,
            aliases: seq![alias@],
            category: category@,
            description: description@,
            detailed_description: detailed@,
        }),
{
    let mut aliases: Vec<String> = Vec::new();
    aliases.push(string_of(alias));
    let r = EventInfo {
        name: string_of(name),
        aliases,
        category: string_of(category),
        description: string_of(description),
        detailed_description: string_of(detailed),
    };
    assert(r@.aliases =~= seq![alias@]);
    r
}

pub open spec fn infos_of_pmus(s: Seq<PmuEventView>) -> Seq<EventInfoView> {
    s.map_values(|e: PmuEventView| info_of_pmu(e))
}

/// The hardware events of an architecture (merged with what sysfs lists),
/// as list entries.
pub fn get_hardware_events(arch: Arch, sysfs_events: Vec<PmuEvent>) -> (r: Vec<EventInfo>)
    ensures
        infos_view(r@) == infos_of_pmus(arch_events_spec(arch, events_view(sysfs_events@))),
{
    let events = get_arch_events(arch, sysfs_events);
    let ghost ev = events_view(events@);
    let mut rest = events;
    let total: usize = rest.len();
    let mut out: Vec<EventInfo> = Vec::new();
    let mut k: usize = 0;
    while rest.len() > 0
        invariant
            k + rest@.len() == total,
            total == ev.len(),
            events_view(rest@) == ev.subrange(k as int, total as int),
            infos_view(out@) == infos_of_pmus(ev.subrange(0, k as int)),
        decreases rest@.len(),
    {
        let ghost r0 = rest@;
        assert(events_view(r0)[0] == ev[k as int]);
        let e = rest.remove(0);
        assert(e@ == ev[k as int]);
        assert(rest@ =~= r0.subrange(1, r0.len() as int));
        assert forall|i: int| 0 <= i < rest@.len() implies events_view(rest@)[i] == ev.subrange(
            k + 1,
            total as int,
        )[i] by {
            assert(rest@[i] == r0[i + 1]);
            assert(events_view(r0)[i + 1] == ev.subrange(k as int, total as int)[i + 1]);
        }
        assert(events_view(rest@) =~= ev.subrange(k + 1, total as int));
        let info = EventInfo::from_pmu(e);
        assert(info@ == info_of_pmu(ev.subrange(0, k + 1)[k as int]));
        let ghost out_old = out@;
        assert(infos_view(out_old).len() == out_old.len());
        assert(infos_of_pmus(ev.subrange(0, k as int)).len() == k);
        out.push(info);
        assert forall|j: int| 0 <= j < k + 1 implies #[trigger] infos_view(out@)[j] == infos_of_pmus(
            ev.subrange(0, k + 1),
        )[j] by {
            if j < k {
                assert(out@[j] == out_old[j]);
                assert(infos_view(out_old)[j] == infos_of_pmus(ev.subrange(0, k as int))[j]);
                assert(ev.subrange(0, k + 1)[j] == ev.subrange(0, k as int)[j]);
            }
        }
        assert(infos_view(out@) =~= infos_of_pmus(ev.subrange(0, k + 1)));
        k = k + 1;
    }
    assert(ev.subrange(0, total as int) =~= ev);
    out
}

/// The software events and what they count.
pub open spec fn software_events_spec() -> Seq<EventInfoView> {
    seq![
        EventInfoView { name: "cpu-clock"@, aliases: seq![], category: "Software event"@, description: "High-resolution per-CPU timer"@, detailed_description: "High-resolution per-CPU timer. This measures CPU time using the CPU's high-resolution timer."@ },
        EventInfoView { name: "task-clock"@, aliases: seq![], category: "Software event"@, description: "Per-task clock count"@, detailed_description: "Per-task clock count. This measures the time a task is running on a CPU."@ },
        EventInfoView { name: "page-faults"@, aliases: seq!["faults"@], category: "Software event"@, description: "Page faults"@, detailed_description: "Page faults. This counts both minor and major page faults."@ },
        EventInfoView { name: "context-switches"@, aliases: seq!["cs"@], category: "Software event"@, description: "Context switches"@, detailed_description: "Context switches. This counts the number of times the CPU switched from one task to another."@ },
        EventInfoView { name: "cpu-migrations"@, aliases: seq![], category: "Software event"@, description: "Process migration to another CPU"@, detailed_description: "Process migration to another CPU. This counts when a process moves from one CPU to another."@ },
        EventInfoView { name: "minor-faults"@, aliases: seq![], category: "Software event"@, description: "Minor page faults (resolved without I/O)"@, detailed_description: "Minor page faults. These are page faults that can be resolved without disk I/O, typically by mapping an existing page in memory."@ },
        EventInfoView { name: "major-faults"@, aliases: seq![], category: "Software event"@, description: "Major page faults (I/O required)"@, detailed_description: "Major page faults. These are page faults that require disk I/O to resolve, typically loading a page from swap or a file."@ },
        EventInfoView { name: "alignment-faults"@, aliases: seq![], category: "Software event"@, description: "Alignment faults (kernel intervention required)"@, detailed_description: "Alignment faults that required kernel intervention. Note: This is only generated on some CPUs, never on x86_64 or ARM."@ },
        EventInfoView { name: "emulation-faults"@, aliases: seq![], category: "Software event"@, description: "Instruction emulation faults"@, detailed_description: "Instruction emulation faults. This counts instructions that had to be emulated by the kernel."@ },
        EventInfoView { name: "dummy"@, aliases: seq![], category: "Software event"@, description: "Placeholder for collecting sample records"@, detailed_description: "Placeholder event for collecting informational sample records without counting actual events."@ },
        EventInfoView { name: "bpf-output"@, aliases: seq![], category: "Software event"@, description: "Streaming data from eBPF programs"@, detailed_description: "Special event type for streaming data from eBPF programs. See bpf-helpers(7) for details."@ },
        EventInfoView { name: "cgroup-switches"@, aliases: seq![], category: "Software event"@, description: "Context switches to a task in a different cgroup"@, detailed_description: "Context switches to a task in a different cgroup. This counts switches between tasks in different cgroups."@ },
    ]
}

/// The software events.
pub fn get_software_events() -> (r: Vec<EventInfo>)
    ensures
        infos_view(r@) == software_events_spec(),
{
    let mut v: Vec<EventInfo> = Vec::new();
    v.push(info("cpu-clock", "Software event", "High-resolution per-CPU timer", "High-resolution per-CPU timer. This measures CPU time using the CPU's high-resolution timer."));
    v.push(info("task-clock", "Software event", "Per-task clock count", "Per-task clock count. This measures the time a task is running on a CPU."));
    v.push(info_with_alias("page-faults", "faults", "Software event", "Page faults", "Page faults. This counts both minor and major page faults."));
    v.push(info_with_alias("context-switches", "cs", "Software event", "Context switches", "Context switches. This counts the number of times the CPU switched from one task to another."));
    v.push(info("cpu-migrations", "Software event", "Process migration to another CPU", "Process migration to another CPU. This counts when a process moves from one CPU to another."));
    v.push(info("minor-faults", "Software event", "Minor page faults (resolved without I/O)", "Minor page faults. These are page faults that can be resolved without disk I/O, typically by mapping an existing page in memory."));
    v.push(info("major-faults", "Software event", "Major page faults (I/O required)", "Major page faults. These are page faults that require disk I/O to resolve, typically loading a page from swap or a file."));
    v.push(info("alignment-faults", "Software event", "Alignment faults (kernel intervention required)", "Alignment faults that required kernel intervention. Note: This is only generated on some CPUs, never on x86_64 or ARM."));
    v.push(info("emulation-faults", "Software event", "Instruction emulation faults", "Instruction emulation faults. This counts instructions that had to be emulated by the kernel."));
    v.push(info("dummy", "Software event", "Placeholder for collecting sample records", "Placeholder event for collecting informational sample records without counting actual events."));
    v.push(info("bpf-output", "Software event", "Streaming data from eBPF programs", "Special event type for streaming data from eBPF programs. See bpf-helpers(7) for details."));
    v.push(info("cgroup-switches", "Software event", "Context switches to a task in a different cgroup", "Context switches to a task in a different cgroup. This counts switches between tasks in different cgroups."));
    assert(infos_view(v@) =~= software_events_spec());
    v
}

/// The entry that describes raw events.
pub open spec fn raw_event_info_spec() -> EventInfoView {
    EventInfoView {
        name: "rNNNN"@,
        aliases: seq!["RNNNN"@],
        category: "Raw event"@,
        description: "Raw CPU-specific event by hex config value"@,
        detailed_description: "Raw CPU-specific event. NNNN is a hexadecimal config value (e.g., r1a8 for Intel RETIRED_UOP_TYPES). Use r0xNNNN format for 0x prefix. Consult CPU documentation for event codes."@,
    }
}

pub fn get_raw_event_info() -> (r: EventInfo)
    ensures
        r@ == raw_event_info_spec(),
{
    info_with_alias(
        "rNNNN",
        "RNNNN",
        "Raw event",
        "Raw CPU-specific event by hex config value",
        "Raw CPU-specific event. NNNN is a hexadecimal config value (e.g., r1a8 for Intel RETIRED_UOP_TYPES). Use r0xNNNN format for 0x prefix. Consult CPU documentation for event codes.",
    )
}

/// The list entry of the tracepoint `subsystem:name`.
pub open spec fn tracepoint_info_spec(subsystem: Seq<char>, name: Seq<char>) -> EventInfoView {
    EventInfoView {
        name: subsystem + ":"@ + name,
        aliases: seq![],
        category: "Tracepoint event"@,
        description: "Tracepoint: "@ + subsystem + "."@ + name,
        detailed_description: "Kernel tracepoint in the "@ + subsystem
            + " subsystem. Use 'perf record -e "@ + subsystem + ":"@ + name + "' to record samples."@,
    }
}

pub open spec fn tracepoint_infos(ps: Seq<(Seq<char>, Seq<char>)>) -> Seq<EventInfoView> {
    ps.map_values(|p: (Seq<char>, Seq<char>)| tracepoint_info_spec(p.0, p.1))
}

pub open spec fn pairs_view(s: Seq<(String, String)>) -> Seq<(Seq<char>, Seq<char>)> {
    s.map_values(|p: (String, String)| (p.0@, p.1@))
}

/// The list entries of the tracepoints that tracefs lists, each given as
/// (subsystem, name); none when tracefs could not be read.
pub fn get_tracepoint_events(tracepoints: &[(String, String)]) -> (r: Vec<EventInfo>)
    ensures
        infos_view(r@) == tracepoint_infos(pairs_view(tracepoints@)),
{
    let ghost ps = pairs_view(tracepoints@);
    let n: usize = tracepoints.len();
    let mut out: Vec<EventInfo> = Vec::new();
    let mut i: usize = 0;
    while i < n
        invariant
            0 <= i <= n,
            n == tracepoints@.len(),
            ps == pairs_view(tracepoints@),
            infos_view(out@) == tracepoint_infos(ps.subrange(0, i as int)),
        decreases n - i,
    {
        let (sub, name) = &tracepoints[i];
        let mut full: Vec<char> = Vec::new();
        push_str(&mut full, sub.as_str());
        push_str(&mut full, ":");
        push_str(&mut full, name.as_str());
        let mut d: Vec<char> = Vec::new();
        push_str(&mut d, "Tracepoint: ");
        push_str(&mut d, sub.as_str());
        push_str(&mut d, ".");
        push_str(&mut d, name.as_str());
        let mut dd: Vec<char> = Vec::new();
        push_str(&mut dd, "Kernel tracepoint in the ");
        push_str(&mut dd, sub.as_str());
        push_str(&mut dd, " subsystem. Use 'perf record -e ");
        push_str(&mut dd, sub.as_str());
        push_str(&mut dd, ":");
        push_str(&mut dd, name.as_str());
        push_str(&mut dd, "' to record samples.");
        let e = EventInfo {
            name: chars_to_string(full.as_slice()),
            aliases: Vec::new(),
            category: string_of("Tracepoint event"),
            description: chars_to_string(d.as_slice()),
            detailed_description: chars_to_string(dd.as_slice()),
        };
        assert(e@.aliases =~= seq![]);
        assert(e@ == tracepoint_info_spec(ps[i as int].0, ps[i as int].1));
        assert(ps.subrange(0, i + 1)[i as int] == ps[i as int]);
        let ghost out_old = out@;
        assert(infos_view(out_old).len() == out_old.len());
        assert(tracepoint_infos(ps.subrange(0, i as int)).len() == i);
        out.push(e);
        assert forall|j: int| 0 <= j < i + 1 implies #[trigger] infos_view(out@)[j] == tracepoint_infos(
            ps.subrange(0, i + 1),
        )[j] by {
            if j < i {
                assert(out@[j] == out_old[j]);
                assert(infos_view(out_old)[j] == tracepoint_infos(ps.subrange(0, i as int))[j]);
                assert(ps.subrange(0, i + 1)[j] == ps.subrange(0, i as int)[j]);
            }
        }
        assert(infos_view(out@) =~= tracepoint_infos(ps.subrange(0, i + 1)));
        i = i + 1;
    }
    assert(ps.subrange(0, n as int) =~= ps);
    out
}

/// The pieces joined with `sep` between them.
pub open spec fn join(parts: Seq<Seq<char>>, sep: Seq<char>) -> Seq<char>
    decreases parts.len(),
{
    if parts.len() == 0 {
        Seq::empty()
    } else if parts.len() == 1 {
        parts[0]
    } else {
        join(parts.drop_last(), sep) + sep + parts.last()
    }
}

fn join_strings(parts: &Vec<String>, sep: &str) -> (r: Vec<char>)
    ensures
        r@ == join(parts@.map_values(|s: String| s@), sep@),
{
    let ghost ps = parts@.map_values(|s: String| s@);
    let n: usize = parts.len();
    let mut out: Vec<char> = Vec::new();
    let mut i: usize = 0;
    while i < n
        invariant
            0 <= i <= n,
            n == parts@.len(),
            ps == parts@.map_values(|s: String| s@),
            out@ == join(ps.subrange(0, i as int), sep@),
        decreases n - i,
    {
        assert(ps.subrange(0, i + 1).drop_last() =~= ps.subrange(0, i as int));
        if i > 0 {
            push_str(&mut out, sep);
        }
        push_str(&mut out, parts[i].as_str());
        proof {
            if i == 0 {
                assert(ps.subrange(0, 1).len() == 1);
                assert(out@ =~= ps.subrange(0, 1)[0]);
            }
        }
        i = i + 1;
    }
    assert(ps.subrange(0, n as int) =~= ps);
    out
}

/// An event as the list prints it: the name padded to 40 columns (or the
/// name and the aliases, joined by ` OR `, each padded to 20), the
/// category in brackets, then the (detailed) description on its own line.
pub open spec fn event_line(e: EventInfoView, detailed: bool) -> Seq<char> {
    let head = if e.aliases.len() == 0 {
        "  "@ + pad_right(e.name, 40)
    } else {
        "  "@ + pad_right(e.name, 20) + " OR "@ + pad_right(join(e.aliases, " OR "@), 20)
    };
    let d = if detailed {
        e.detailed_description
    } else {
        e.description
    };
    head + "["@ + e.category + "]"@ + "\n    "@ + d
}

pub fn format_event(event: &EventInfo, detailed: bool) -> (r: String)
    ensures
        r@ == event_line(event@, detailed),
{
    let mut line: Vec<char> = Vec::new();
    push_str(&mut line, "  ");
    let name = str_to_chars(event.name.as_str());
    if event.aliases.len() == 0 {
        let p = pad_right_chars(name.as_slice(), 40);
        push_all(&mut line, p.as_slice());
    } else {
        let p = pad_right_chars(name.as_slice(), 20);
        push_all(&mut line, p.as_slice());
        push_str(&mut line, " OR ");
        let j = join_strings(&event.aliases, " OR ");
        let pj = pad_right_chars(j.as_slice(), 20);
        push_all(&mut line, pj.as_slice());
    }
    push_str(&mut line, "[");
    push_str(&mut line, event.category.as_str());
    push_str(&mut line, "]");
    push_str(&mut line, "\n    ");
    if detailed {
        push_str(&mut line, event.detailed_description.as_str());
    } else {
        push_str(&mut line, event.description.as_str());
    }
    chars_to_string(line.as_slice())
}

/// Whether a text contains the filter, both lower-cased.
pub open spec fn matches_text(text: Seq<char>, filter: Seq<char>) -> bool {
    contains_seq(lowercase(text), lowercase(filter))
}

/// Whether the filter occurs, ignoring case, in the name, an alias, the
/// description or the category.
pub open spec fn event_matches(e: EventInfoView, filter: Seq<char>) -> bool {
    ||| matches_text(e.name, filter)
    ||| exists|i: int| 0 <= i < e.aliases.len() && #[trigger] matches_text(e.aliases[i], filter)
    ||| matches_text(e.description, filter)
    ||| matches_text(e.category, filter)
}

fn text_matches(text: &str, filter: &[char]) -> (r: bool)
    ensures
        r == contains_seq(lowercase(text@), filter@),
{
    let t = lowercase_chars(str_to_chars(text).as_slice());
    contains_chars(t.as_slice(), filter)
}

pub fn matches_filter(event: &EventInfo, filter: &str) -> (r: bool)
    ensures
        r == event_matches(event@, filter@),
{
    let f = lowercase_chars(str_to_chars(filter).as_slice());
    if text_matches(event.name.as_str(), f.as_slice()) {
        return true;
    }
    let n: usize = event.aliases.len();
    let mut i: usize = 0;
    while i < n
        invariant
            0 <= i <= n,
            n == event.aliases@.len(),
            f@ == lowercase(filter@),
            forall|k: int| 0 <= k < i ==> !#[trigger] matches_text(event@.aliases[k], filter@),
        decreases n - i,
    {
        assert(event@.aliases[i as int] == event.aliases@[i as int]@);
        if text_matches(event.aliases[i].as_str(), f.as_slice()) {
            assert(matches_text(event@.aliases[i as int], filter@));
            return true;
        }
        i = i + 1;
    }
    if text_matches(event.description.as_str(), f.as_slice()) {
        return true;
    }
    text_matches(event.category.as_str(), f.as_slice())
}

/// The name after the first `:`, or all of it.
pub open spec fn after_colon(name: Seq<char>) -> Seq<char> {
    match first_index(name, ':') {
        Some(i) => name.subrange(i + 1, name.len() as int),
        None => name,
    }
}

/// A tracepoint as the list prints it within its subsystem: the name
/// without the subsystem, padded to 36 columns, the category, then the
/// (detailed) description on its own line.
pub open spec fn tracepoint_line(e: EventInfoView, detailed: bool) -> Seq<char> {
    let d = if detailed {
        e.detailed_description
    } else {
        e.description
    };
    pad_right(after_colon(e.name), 36) + "[Tracepoint event]"@ + "\n      "@ + d
}

pub fn format_tracepoint_event(event: &EventInfo, detailed: bool) -> (r: String)
    ensures
        r@ == tracepoint_line(event@, detailed),
{
    let name = str_to_chars(event.name.as_str());
    let nlen: usize = name.len();
    let short = match find_char(name.as_slice(), ':') {
        Some(i) => sub_chars(name.as_slice(), i + 1, nlen),
        None => name,
    };
    let mut line = pad_right_chars(short.as_slice(), 36);
    push_str(&mut line, "[Tracepoint event]");
    push_str(&mut line, "\n      ");
    if detailed {
        push_str(&mut line, event.detailed_description.as_str());
    } else {
        push_str(&mut line, event.description.as_str());
    }
    chars_to_string(line.as_slice())
}

} // verus!
