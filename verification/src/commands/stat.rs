//! Counting events: the hardware events that `stat` accepts, their names,
//! and how counts are written.

use vstd::prelude::*;
use crate::commands::plan::{
    check_access, cpu_selection, cpus_view, denied_operation, select_cpus, CommandError, Target,
};
use crate::commands::record::opt_str_view;
use crate::error::PerfError;
use crate::events::Hardware;
use crate::perf_core::privilege::{PrivilegeError, PrivilegeLevel};
use crate::text::{
    chars_eq_str, chars_to_string, dec_chars, fmt_dec, lemma_plain_text, lowercase_chars, to_lower,
    push_str,
    split, split_chars, str_to_chars, string_of, sub_chars, trim, trim_chars,
};

verus! {

/// The hardware event that a (trimmed, lower-cased) name denotes for
/// `stat`.
pub open spec fn stat_hardware_by_name(n: Seq<char>) -> Option<Hardware> {
    if n == "cpu-cycles"@ || n == "cycles"@ {
        Some(Hardware::CPU_CYCLES)
    } else if n == "instructions"@ || n == "instructions-retired"@ {
        Some(Hardware::INSTRUCTIONS)
    } else if n == "cache-references"@ {
        Some(Hardware::CACHE_REFERENCES)
    } else if n == "cache-misses"@ {
        Some(Hardware::CACHE_MISSES)
    } else if n == "branch-instructions"@ || n == "branches"@ {
        Some(Hardware::BRANCH_INSTRUCTIONS)
    } else if n == "branch-misses"@ {
        Some(Hardware::BRANCH_MISSES)
    } else if n == "stalled-cycles-frontend"@ || n == "idle-cycles-frontend"@ {
        Some(Hardware::STALLED_CYCLES_FRONTEND)
    } else if n == "stalled-cycles-backend"@ || n == "idle-cycles-backend"@ {
        Some(Hardware::STALLED_CYCLES_BACKEND)
    } else if n == "ref-cpu-cycles"@ || n == "cpu-cycles-ref"@ {
        Some(Hardware::REF_CPU_CYCLES)
    } else {
        None
    }
}

/// The message for a name that `stat` does not know.
pub open spec fn unknown_event_message(name: Seq<char>) -> Seq<char> {
    "Unknown event: '"@ + name
        + "'. Supported events: cpu-cycles, instructions, cache-references, cache-misses, branch-instructions, branch-misses"@
}

fn hardware_of_chars(n: &[char]) -> (r: Option<Hardware>)
    ensures
        r == stat_hardware_by_name(n@),
{
    if chars_eq_str(n, "cpu-cycles") || chars_eq_str(n, "cycles") {
        Some(Hardware::CPU_CYCLES)
    } else if chars_eq_str(n, "instructions") || chars_eq_str(n, "instructions-retired") {
        Some(Hardware::INSTRUCTIONS)
    } else if chars_eq_str(n, "cache-references") {
        Some(Hardware::CACHE_REFERENCES)
    } else if chars_eq_str(n, "cache-misses") {
        Some(Hardware::CACHE_MISSES)
    } else if chars_eq_str(n, "branch-instructions") || chars_eq_str(n, "branches") {
        Some(Hardware::BRANCH_INSTRUCTIONS)
    } else if chars_eq_str(n, "branch-misses") {
        Some(Hardware::BRANCH_MISSES)
    } else if chars_eq_str(n, "stalled-cycles-frontend") || chars_eq_str(n, "idle-cycles-frontend") {
        Some(Hardware::STALLED_CYCLES_FRONTEND)
    } else if chars_eq_str(n, "stalled-cycles-backend") || chars_eq_str(n, "idle-cycles-backend") {
        Some(Hardware::STALLED_CYCLES_BACKEND)
    } else if chars_eq_str(n, "ref-cpu-cycles") || chars_eq_str(n, "cpu-cycles-ref") {
        Some(Hardware::REF_CPU_CYCLES)
    } else {
        None
    }
}

/// The hardware event that a name denotes, ignoring surrounding
/// whitespace and case; an unknown name gives its message.
pub fn parse_event(name: &str) -> (r: Result<Hardware, String>)
    ensures
        match stat_hardware_by_name(to_lower(trim(name@))) {
            Some(h) => r == Ok::<Hardware, String>(h),
            None => r matches Err(m) && m@ == unknown_event_message(name@),
        },
{
    let t = trim_chars(str_to_chars(name).as_slice());
    let l = lowercase_chars(t.as_slice());
    match hardware_of_chars(l.as_slice()) {
        Some(h) => Ok(h),
        None => {
            let mut v: Vec<char> = Vec::new();
            push_str(&mut v, "Unknown event: '");
            push_str(&mut v, name);
            push_str(
                &mut v,
                "'. Supported events: cpu-cycles, instructions, cache-references, cache-misses, branch-instructions, branch-misses",
            );
            Err(chars_to_string(v.as_slice()))
        },
    }
}

/// The events of a comma-separated list, or the message of the first name
/// that is not known.
pub open spec fn parse_events_spec(parts: Seq<Seq<char>>) -> Result<Seq<Hardware>, Seq<char>>
    decreases parts.len(),
{
    if parts.len() == 0 {
        Ok(Seq::empty())
    } else {
        match parse_events_spec(parts.drop_last()) {
            Err(m) => Err(m),
            Ok(hs) => match stat_hardware_by_name(to_lower(trim(trim(parts.last())))) {
                Some(h) => Ok(hs.push(h)),
                None => Err(unknown_event_message(trim(parts.last()))),
            },
        }
    }
}

proof fn lemma_parse_events_err_sticky(parts: Seq<Seq<char>>, k: int, n: int)
    requires
        0 <= k <= n <= parts.len(),
    ensures
        parse_events_spec(parts.subrange(0, k)) is Err ==> parse_events_spec(parts.subrange(0, n))
            == parse_events_spec(parts.subrange(0, k)),
    decreases n - k,
{
    if k < n {
        lemma_parse_events_err_sticky(parts, k, n - 1);
        assert(parts.subrange(0, n).drop_last() =~= parts.subrange(0, n - 1));
    }
}

/// Parses a comma-separated list of hardware events.
pub fn parse_events(events_str: &str) -> (r: Result<Vec<Hardware>, String>)
    ensures
        match parse_events_spec(split(events_str@, ',')) {
            Ok(hs) => r matches Ok(v) && v@ == hs,
            Err(m) => r matches Err(x) && x@ == m,
        },
{
    let chars = str_to_chars(events_str);
    let parts = split_chars(chars.as_slice(), ',');
    let ghost ps = split(events_str@, ',');
    let n: usize = parts.len();
    let mut out: Vec<Hardware> = Vec::new();
    let mut i: usize = 0;
    while i < n
        invariant
            0 <= i <= n,
            n == parts@.len(),
            ps == split(events_str@, ','),
            ps.len() == n,
            forall|k: int| 0 <= k < n ==> #[trigger] parts@[k]@ == ps[k],
            parse_events_spec(ps.subrange(0, i as int)) == Ok::<Seq<Hardware>, Seq<char>>(out@),
        decreases n - i,
    {
        assert(ps.subrange(0, i + 1).drop_last() =~= ps.subrange(0, i as int));
        assert(ps.subrange(0, i + 1).last() == ps[i as int]);
        let t = trim_chars(parts[i].as_slice());
        let ts = chars_to_string(t.as_slice());
        match parse_event(ts.as_str()) {
            Ok(h) => {
                out.push(h);
            },
            Err(m) => {
                proof {
                    lemma_parse_events_err_sticky(ps, i + 1, n as int);
                    assert(ps.subrange(0, n as int) =~= ps);
                }
                return Err(m);
            },
        }
        i = i + 1;
    }
    assert(ps.subrange(0, n as int) =~= ps);
    Ok(out)
}

/// The name under which `stat` reports a hardware event; the bus-cycles
/// counter, which it does not name, by the counter's debug form.
pub open spec fn stat_event_name(h: Hardware) -> Seq<char> {
    match h {
        Hardware::CPU_CYCLES => "cpu-cycles"@,
        Hardware::INSTRUCTIONS => "instructions"@,
        Hardware::CACHE_REFERENCES => "cache-references"@,
        Hardware::CACHE_MISSES => "cache-misses"@,
        Hardware::BRANCH_INSTRUCTIONS => "branch-instructions"@,
        Hardware::BRANCH_MISSES => "branch-misses"@,
        Hardware::STALLED_CYCLES_FRONTEND => "stalled-cycles-frontend"@,
        Hardware::STALLED_CYCLES_BACKEND => "stalled-cycles-backend"@,
        Hardware::REF_CPU_CYCLES => "ref-cpu-cycles"@,
        Hardware::BUS_CYCLES => "hardware-event-Hardware::BUS_CYCLES"@,
    }
}

/// Reading back the name that `stat` prints for an event gives the event,
/// for every event but the bus cycles, whose printed name is no name that
/// `stat` accepts.
pub proof fn lemma_stat_name_roundtrip(h: Hardware)
    requires
        h != Hardware::BUS_CYCLES,
    ensures
        stat_hardware_by_name(to_lower(trim(stat_event_name(h)))) == Some(h),
{
    reveal_strlit("cpu-cycles");
    reveal_strlit("cycles");
    reveal_strlit("instructions");
    reveal_strlit("instructions-retired");
    reveal_strlit("cache-references");
    reveal_strlit("cache-misses");
    reveal_strlit("branch-instructions");
    reveal_strlit("branches");
    reveal_strlit("branch-misses");
    reveal_strlit("stalled-cycles-frontend");
    reveal_strlit("idle-cycles-frontend");
    reveal_strlit("stalled-cycles-backend");
    reveal_strlit("idle-cycles-backend");
    reveal_strlit("ref-cpu-cycles");
    reveal_strlit("cpu-cycles-ref");
    lemma_plain_text(stat_event_name(h));
}

/// The other names that `stat` accepts for counters, each with the name
/// that `stat` prints for the counter and the counter: `cycles` is
/// `cpu-cycles`, `branches` is `branch-instructions`, and so on.
pub open spec fn stat_alias(a: Seq<char>) -> Option<(Seq<char>, Hardware)> {
    if a == "cycles"@ {
        Some(("cpu-cycles"@, Hardware::CPU_CYCLES))
    } else if a == "instructions-retired"@ {
        Some(("instructions"@, Hardware::INSTRUCTIONS))
    } else if a == "branches"@ {
        Some(("branch-instructions"@, Hardware::BRANCH_INSTRUCTIONS))
    } else if a == "idle-cycles-frontend"@ {
        Some(("stalled-cycles-frontend"@, Hardware::STALLED_CYCLES_FRONTEND))
    } else if a == "idle-cycles-backend"@ {
        Some(("stalled-cycles-backend"@, Hardware::STALLED_CYCLES_BACKEND))
    } else if a == "cpu-cycles-ref"@ {
        Some(("ref-cpu-cycles"@, Hardware::REF_CPU_CYCLES))
    } else {
        None
    }
}

/// `parse_event` gives for an alias the counter it names, the same as for
/// the counter's own name (see `parse_event`'s contract, which is decided by
/// `stat_hardware_by_name` of the trimmed, lower-cased name).
pub proof fn lemma_stat_alias(a: Seq<char>)
    requires
        stat_alias(a) is Some,
    ensures
        stat_hardware_by_name(to_lower(trim(a))) == Some(stat_alias(a).unwrap().1),
        stat_hardware_by_name(to_lower(trim(a))) == stat_hardware_by_name(
            to_lower(trim(stat_alias(a).unwrap().0)),
        ),
        stat_event_name(stat_alias(a).unwrap().1) == stat_alias(a).unwrap().0,
{
    reveal_strlit("cpu-cycles");
    reveal_strlit("cycles");
    reveal_strlit("instructions");
    reveal_strlit("instructions-retired");
    reveal_strlit("cache-references");
    reveal_strlit("cache-misses");
    reveal_strlit("branch-instructions");
    reveal_strlit("branches");
    reveal_strlit("branch-misses");
    reveal_strlit("stalled-cycles-frontend");
    reveal_strlit("idle-cycles-frontend");
    reveal_strlit("stalled-cycles-backend");
    reveal_strlit("idle-cycles-backend");
    reveal_strlit("ref-cpu-cycles");
    reveal_strlit("cpu-cycles-ref");
    let (c, h) = stat_alias(a).unwrap();
    lemma_plain_text(a);
    lemma_stat_name_roundtrip(h);
}

/// The name of a hardware event in `stat` output.
pub fn format_event_name(event: &Hardware) -> (r: String)
    ensures
        r@ == stat_event_name(*event),
{
    match event {
        Hardware::CPU_CYCLES => string_of("cpu-cycles"),
        Hardware::INSTRUCTIONS => string_of("instructions"),
        Hardware::CACHE_REFERENCES => string_of("cache-references"),
        Hardware::CACHE_MISSES => string_of("cache-misses"),
        Hardware::BRANCH_INSTRUCTIONS => string_of("branch-instructions"),
        Hardware::BRANCH_MISSES => string_of("branch-misses"),
        Hardware::STALLED_CYCLES_FRONTEND => string_of("stalled-cycles-frontend"),
        Hardware::STALLED_CYCLES_BACKEND => string_of("stalled-cycles-backend"),
        Hardware::REF_CPU_CYCLES => string_of("ref-cpu-cycles"),
        Hardware::BUS_CYCLES => string_of("hardware-event-Hardware::BUS_CYCLES"),
    }
}

/// The digits after the first group, three by three, each group preceded
/// by a comma. `t` holds a multiple of three digits.
pub open spec fn comma_groups(t: Seq<char>) -> Seq<char>
    decreases t.len(),
{
    if t.len() < 3 {
        Seq::empty()
    } else {
        comma_groups(t.subrange(0, t.len() - 3)) + seq![','] + t.subrange(t.len() - 3, t.len() as int)
    }
}

/// Digits with a comma between groups of three, counted from the right.
pub open spec fn with_thousands(s: Seq<char>) -> Seq<char> {
    if s.len() == 0 {
        s
    } else {
        let k = (s.len() - 1) % 3 + 1;
        s.subrange(0, k) + comma_groups(s.subrange(k, s.len() as int))
    }
}

/// A count in decimal with thousands separators: `1234567` is
/// `1,234,567`.
pub fn format_number(n: u64) -> (r: String)
    ensures
        r@ == with_thousands(fmt_dec(n as nat)),
{
    let d = dec_chars(n);
    let len: usize = d.len();
    if len == 0 {
        return chars_to_string(d.as_slice());
    }
    let k: usize = (len - 1) % 3 + 1;
    let mut out = sub_chars(d.as_slice(), 0, k);
    let mut j: usize = k;
    while j < len
        invariant
            k <= j <= len,
            len == d@.len(),
            1 <= k <= 3,
            (j - k) % 3 == 0,
            (len - k) % 3 == 0,
            out@ == d@.subrange(0, k as int) + comma_groups(d@.subrange(k as int, j as int)),
        decreases len - j,
    {
        let ghost t = d@.subrange(k as int, j + 3);
        assert(t.subrange(0, t.len() - 3) =~= d@.subrange(k as int, j as int));
        assert(t.subrange(t.len() - 3, t.len() as int) =~= seq![d@[j as int], d@[j + 1], d@[j + 2]]);
        out.push(',');
        out.push(d[j]);
        out.push(d[j + 1]);
        out.push(d[j + 2]);
        assert(out@ =~= d@.subrange(0, k as int) + comma_groups(t));
        j = j + 3;
    }
    assert(j == len);
    chars_to_string(out.as_slice())
}

/// The message when there is nothing to count.
pub open spec fn stat_usage_message() -> Seq<char> {
    "No command specified. Usage: perf stat -- <command> [args...]"@
}

/// The events that `stat` counts: those listed, or cycles and
/// instructions.
pub open spec fn stat_events(event: Option<Seq<char>>) -> Result<Seq<Hardware>, Seq<char>> {
    match event {
        Some(s) => parse_events_spec(split(s, ',')),
        None => Ok(seq![Hardware::CPU_CYCLES, Hardware::INSTRUCTIONS]),
    }
}

/// What `stat` does: what it observes and the events it counts.
pub struct StatPlan {
    pub target: Target,
    pub events: Vec<Hardware>,
}

/// Decides what `stat` does from its arguments, the privilege level (or
/// the failure to find it) and the online CPUs (or the failure to find
/// them; used only for a system-wide run). It refuses, in this order: a run
/// with nothing to observe, a run that the level does not allow, events
/// that do not parse (or none), a CPU selection that fails or is empty. A
/// system-wide run takes precedence over a process ID, and a process ID
/// over a command.
pub fn plan_stat(
    pid: Option<u32>,
    event: Option<&str>,
    all_cpus: bool,
    cpu: Option<&str>,
    has_command: bool,
    privilege: &Result<PrivilegeLevel, PrivilegeError>,
    online: Result<Vec<u32>, PerfError>,
) -> (r: Result<StatPlan, CommandError>)
    ensures
        ({
            let sw = all_cpus || cpu is Some;
            if pid is None && !sw && !has_command {
                r matches Err(CommandError::Message(m)) && m@ == stat_usage_message()
            } else {
                match denied_operation(sw, *privilege, "system-wide performance monitoring"@) {
                    Some(op) => r matches Err(CommandError::Perf(PerfError::PermissionDenied { operation }))
                        && operation@ == op,
                    None => match stat_events(opt_str_view(event)) {
                        Err(m) => r matches Err(CommandError::Message(x)) && x@ == m,
                        Ok(evs) => if evs.len() == 0 {
                            r matches Err(CommandError::Message(m)) && m@
                                == "No events specified. Usage: perf stat -e <events> -- <command>"@
                        } else if sw {
                            match r {
                                Ok(p) => p.events@ == evs && (p.target matches Target::Cpus(w) && w@.len()
                                    > 0 && cpu_selection(all_cpus, opt_str_view(cpu), cpus_view(online), Ok(w@))),
                                Err(x) => (x matches CommandError::Perf(e) && cpu_selection(
                                    all_cpus,
                                    opt_str_view(cpu),
                                    cpus_view(online),
                                    Err(e),
                                )) || (x matches CommandError::Message(m) && m@
                                    == "No CPUs available for monitoring"@ && cpu_selection(
                                    all_cpus,
                                    opt_str_view(cpu),
                                    cpus_view(online),
                                    Ok(Seq::<u32>::empty()),
                                )),
                            }
                        } else {
                            r matches Ok(p) && (p.events@ == evs && p.target == (match pid {
                                Some(x) => Target::Pid(x),
                                None => Target::Command,
                            }))
                        },
                    },
                }
            }
        }),
{
    let sw = all_cpus || cpu.is_some();
    if pid.is_none() && !sw && !has_command {
        return Err(CommandError::Message(string_of("No command specified. Usage: perf stat -- <command> [args...]")));
    }
    match check_access(sw, privilege, "system-wide performance monitoring") {
        Ok(()) => {},
        Err(e) => {
            return Err(e);
        },
    }
    let events: Vec<Hardware> = match event {
        Some(s) => match parse_events(s) {
            Ok(v) => v,
            Err(m) => {
                return Err(CommandError::Message(m));
            },
        },
        None => {
            let mut v: Vec<Hardware> = Vec::new();
            v.push(Hardware::CPU_CYCLES);
            v.push(Hardware::INSTRUCTIONS);
            v
        },
    };
    assert(events@ =~= stat_events(opt_str_view(event))->Ok_0);
    if events.len() == 0 {
        return Err(CommandError::Message(string_of("No events specified. Usage: perf stat -e <events> -- <command>")));
    }
    if sw {
        let cpus = match select_cpus(all_cpus, cpu, online) {
            Ok(c) => c,
            Err(e) => {
                return Err(CommandError::Perf(e));
            },
        };
        if cpus.len() == 0 {
            assert(cpus@ =~= Seq::<u32>::empty());
            return Err(CommandError::Message(string_of("No CPUs available for monitoring")));
        }
        Ok(StatPlan { target: Target::Cpus(cpus), events })
    } else {
        let target = match pid {
            Some(x) => Target::Pid(x),
            None => Target::Command,
        };
        Ok(StatPlan { target, events })
    }
}

} // verus!
