//! The counters that `stat` opens, starts, stops and reads, and how their
//! readings are ordered. What a counter reads comes from the kernel.

use vstd::prelude::*;
use crate::commands::plan::CommandError;
use crate::commands::stat::{format_event_name, stat_event_name};
use crate::counts::{count_names, counts_view};
use crate::error::PerfError;
use crate::events::{hardware_config, Hardware, PerfEvent};
use crate::order::{lex_le, lemma_lex_total, lemma_lex_trans, sort_ranked, str_le, Ranked, ranked_sorted};
use crate::perf_core::perf_event::{
    counter_plan_spec, counter_settings, create_counter, disable_counter, enable_counter, read_counter,
    BuilderSettings, BuiltEvent, PerfConfig, PerfCounter, default_config,
};
use crate::text::string_of;

verus! {

/// A counter of one event on one CPU.
pub struct CpuCounter {
    pub cpu: u32,
    pub name: String,
    pub counter: PerfCounter,
}

/// A counter of one event, with the name it is reported under.
pub struct NamedCounter {
    pub name: String,
    pub counter: PerfCounter,
}

/// The names of the counters.
pub open spec fn counter_names(s: Seq<NamedCounter>) -> Seq<Seq<char>> {
    s.map_values(|c: NamedCounter| c.name@)
}

/// The names under which events are reported.
pub open spec fn event_names(s: Seq<Hardware>) -> Seq<Seq<char>> {
    s.map_values(|h: Hardware| stat_event_name(h))
}

/// What the counter of a hardware event is built with under a
/// configuration.
pub open spec fn hardware_counter_settings(h: Hardware, config: PerfConfig) -> BuilderSettings {
    counter_settings(BuiltEvent::Hardware(hardware_config(h)), counter_plan_spec(config))
}

/// Opens a counter for each event in order, with the given settings; the
/// first that cannot be opened (the kernel's answer) fails the whole, and
/// with no events nothing is opened and the result is empty.
pub fn open_counters(events: &[Hardware], config: &PerfConfig) -> (r: Result<Vec<NamedCounter>, PerfError>)
    ensures
        events@.len() == 0 ==> (r matches Ok(cs) && cs@.len() == 0),
        match r {
            Ok(cs) => {
                &&& counter_names(cs@) == event_names(events@)
                &&& forall|i: int|
                    0 <= i < cs@.len() ==> (#[trigger] cs@[i]).counter.settings() == hardware_counter_settings(
                        events@[i],
                        *config,
                    )
            },
            Err(e) => e is CounterSetup,
        },
{
    let mut out: Vec<NamedCounter> = Vec::new();
    let mut i: usize = 0;
    while i < events.len()
        invariant
            i <= events@.len(),
            out@.len() == i,
            counter_names(out@) == event_names(events@.subrange(0, i as int)),
            forall|k: int|
                0 <= k < i ==> (#[trigger] out@[k]).counter.settings() == hardware_counter_settings(
                    events@[k],
                    *config,
                ),
        decreases events@.len() - i,
    {
        let ev = PerfEvent::Hardware(events[i]);
        let counter = match create_counter(&ev, config) {
            Ok(c) => c,
            Err(e) => {
                return Err(e);
            },
        };
        let name = format_event_name(&events[i]);
        let ghost old_out = out@;
        out.push(NamedCounter { name, counter });
        proof {
            assert forall|k: int| 0 <= k < i + 1 implies #[trigger] counter_names(out@)[k] == event_names(
                events@.subrange(0, i + 1),
            )[k] by {
                if k < i {
                    assert(out@[k] == old_out[k]);
                    assert(counter_names(old_out)[k] == event_names(events@.subrange(0, i as int))[k]);
                }
            }
            assert(counter_names(out@) =~= event_names(events@.subrange(0, i + 1)));
        }
        i = i + 1;
    }
    assert(events@.subrange(0, events@.len() as int) =~= events@);
    Ok(out)
}

/// Starts each counter in order; the first failure is returned, naming
/// the counter that could not be started.
pub fn enable_counters(counters: &mut Vec<NamedCounter>) -> (r: Result<(), PerfError>)
    ensures
        counter_names(final(counters)@) == counter_names(old(counters)@),
        r matches Err(e) ==> (e matches PerfError::CounterEnable { event_name: n, .. }
            && counter_names(old(counters)@).contains(n@)),
{
    let mut i: usize = 0;
    while i < counters.len()
        invariant
            i <= counters@.len(),
            counter_names(counters@) == counter_names(old(counters)@),
        decreases counters@.len() - i,
    {
        let ghost before = counters@;
        let c = &mut counters[i];
        let res = enable_counter(&mut c.counter, c.name.as_str());
        assert(counter_names(counters@) =~= counter_names(before));
        assert(counter_names(before)[i as int] == before[i as int].name@);
        match res {
            Ok(()) => {},
            Err(e) => {
                return Err(e);
            },
        }
        i = i + 1;
    }
    Ok(())
}

/// Stops each counter; failures are ignored.
pub fn disable_counters(counters: &mut Vec<NamedCounter>)
    ensures
        counter_names(final(counters)@) == counter_names(old(counters)@),
{
    let mut i: usize = 0;
    while i < counters.len()
        invariant
            i <= counters@.len(),
            counter_names(counters@) == counter_names(old(counters)@),
        decreases counters@.len() - i,
    {
        let ghost before = counters@;
        let c = &mut counters[i];
        let _ = disable_counter(&mut c.counter, c.name.as_str());
        assert(counter_names(counters@) =~= counter_names(before));
        i = i + 1;
    }
}

/// Reads each counter in order, with its name; the first failure fails
/// the whole.
pub fn read_counters(counters: &mut Vec<NamedCounter>) -> (r: Result<Vec<(String, u64)>, PerfError>)
    ensures
        counter_names(final(counters)@) == counter_names(old(counters)@),
        match r {
            Ok(v) => count_names(counts_view(v@)) == counter_names(old(counters)@),
            Err(e) => e is CounterRead,
        },
{
    let mut out: Vec<(String, u64)> = Vec::new();
    let mut i: usize = 0;
    while i < counters.len()
        invariant
            i <= counters@.len(),
            counter_names(counters@) == counter_names(old(counters)@),
            out@.len() == i,
            count_names(counts_view(out@)) == counter_names(counters@).subrange(0, i as int),
        decreases counters@.len() - i,
    {
        let ghost before = counters@;
        let c = &mut counters[i];
        let res = read_counter(&mut c.counter, c.name.as_str());
        let name = c.name.clone();
        assert(counter_names(counters@) =~= counter_names(before));
        match res {
            Ok(v) => {
                let ghost old_out = out@;
                out.push((name, v));
                proof {
                    assert forall|k: int| 0 <= k < i + 1 implies #[trigger] count_names(counts_view(out@))[k]
                        == counter_names(counters@).subrange(0, i + 1)[k] by {
                        if k < i {
                            assert(out@[k] == old_out[k]);
                            assert(count_names(counts_view(old_out))[k] == counter_names(counters@).subrange(
                                0,
                                i as int,
                            )[k]);
                        }
                    }
                    assert(count_names(counts_view(out@)) =~= counter_names(counters@).subrange(0, i + 1));
                }
            },
            Err(e) => {
                return Err(e);
            },
        }
        i = i + 1;
    }
    assert(counter_names(counters@).subrange(0, counters@.len() as int) =~= counter_names(counters@));
    Ok(out)
}

/// The (CPU, event name) of each counter.
pub open spec fn cpu_counter_keys(s: Seq<CpuCounter>) -> Seq<(u32, Seq<char>)> {
    s.map_values(|c: CpuCounter| (c.cpu, c.name@))
}

/// Whether a (CPU, event name) pair is one of the CPUs with one of the
/// events.
pub open spec fn is_cpu_event(cpus: Seq<u32>, events: Seq<Hardware>, cpu: u32, name: Seq<char>) -> bool {
    cpus.contains(cpu) && event_names(events).contains(name)
}

/// The message when no counter could be opened.
pub open spec fn no_counters_message() -> Seq<char> {
    "Failed to create any counters. All CPUs may be offline or inaccessible."@
}

/// The (CPU, event) pairs, CPU by CPU, each CPU with the events in order.
pub open spec fn cpu_event_pairs(cpus: Seq<u32>, events: Seq<Hardware>) -> Seq<(u32, Hardware)>
    decreases cpus.len(),
{
    if cpus.len() == 0 {
        Seq::empty()
    } else {
        cpu_event_pairs(cpus.drop_last(), events) + events.map_values(|h: Hardware| (cpus.last(), h))
    }
}

/// The pairs whose outcome is `keep`, in order.
pub open spec fn pairs_with(pairs: Seq<(u32, Hardware)>, opened: Seq<bool>, keep: bool) -> Seq<(u32, Hardware)>
    decreases pairs.len(),
{
    if pairs.len() == 0 {
        Seq::empty()
    } else {
        let prev = pairs_with(pairs.drop_last(), opened.drop_last(), keep);
        if opened.last() == keep {
            prev.push(pairs.last())
        } else {
            prev
        }
    }
}

/// The (CPU, event name) under which a pair is reported.
pub open spec fn pair_keys(pairs: Seq<(u32, Hardware)>) -> Seq<(u32, Seq<char>)> {
    pairs.map_values(|p: (u32, Hardware)| (p.0, stat_event_name(p.1)))
}

/// The (CPU, event) of each failure.
pub open spec fn failure_pairs(s: Seq<(u32, Hardware, PerfError)>) -> Seq<(u32, Hardware)> {
    s.map_values(|f: (u32, Hardware, PerfError)| (f.0, f.1))
}

/// Opens, on each CPU in order and for each event in order, a counter of
/// every process on that CPU. Each pair is tried once: the counters that
/// open are kept in that order, and the others are handed back in that
/// order with their error; when none could be opened the result is an
/// error. Which pairs open is the kernel's answer.
pub fn create_per_cpu_counters(cpus: &[u32], events: &[Hardware]) -> (r: (
    Result<Vec<CpuCounter>, CommandError>,
    Vec<(u32, Hardware, PerfError)>,
))
    ensures
        exists|opened: Seq<bool>|
            #![trigger pairs_with(cpu_event_pairs(cpus@, events@), opened, false)]
            {
                &&& opened.len() == cpu_event_pairs(cpus@, events@).len()
                &&& failure_pairs(r.1@) == pairs_with(cpu_event_pairs(cpus@, events@), opened, false)
                &&& match r.0 {
                    Ok(cs) => cs@.len() > 0 && cpu_counter_keys(cs@) == pair_keys(
                        pairs_with(cpu_event_pairs(cpus@, events@), opened, true),
                    ),
                    Err(_) => pairs_with(cpu_event_pairs(cpus@, events@), opened, true).len() == 0,
                }
            },
        match r.0 {
            Ok(cs) => {
                &&& cs@.len() > 0
                &&& forall|k: int|
                    0 <= k < cs@.len() ==> is_cpu_event(
                        cpus@,
                        events@,
                        (#[trigger] cs@[k]).cpu,
                        cs@[k].name@,
                    )
            },
            Err(e) => e matches CommandError::Message(m) && m@ == no_counters_message(),
        },
        forall|k: int|
            0 <= k < r.1@.len() ==> cpus@.contains((#[trigger] r.1@[k]).0) && events@.contains(r.1@[k].1)
                && r.1@[k].2 is CounterSetup,
{
    let mut counters: Vec<CpuCounter> = Vec::new();
    let mut failures: Vec<(u32, Hardware, PerfError)> = Vec::new();
    let ghost mut opened: Seq<bool> = Seq::empty();
    let mut j: usize = 0;
    while j < cpus.len()
        invariant
            j <= cpus@.len(),
            opened.len() == cpu_event_pairs(cpus@.subrange(0, j as int), events@).len(),
            failure_pairs(failures@) == pairs_with(cpu_event_pairs(cpus@.subrange(0, j as int), events@), opened, false),
            cpu_counter_keys(counters@) == pair_keys(
                pairs_with(cpu_event_pairs(cpus@.subrange(0, j as int), events@), opened, true),
            ),
            forall|k: int|
                0 <= k < counters@.len() ==> is_cpu_event(
                    cpus@,
                    events@,
                    (#[trigger] counters@[k]).cpu,
                    counters@[k].name@,
                ),
            forall|k: int|
                0 <= k < failures@.len() ==> cpus@.contains((#[trigger] failures@[k]).0)
                    && events@.contains(failures@[k].1) && failures@[k].2 is CounterSetup,
        decreases cpus@.len() - j,
    {
        let cpu = cpus[j];
        assert(cpus@[j as int] == cpu);
        let ghost done = cpu_event_pairs(cpus@.subrange(0, j as int), events@);
        let ghost row = events@.map_values(|h: Hardware| (cpu, h));
        assert(cpus@.subrange(0, j + 1).drop_last() =~= cpus@.subrange(0, j as int));
        assert(cpu_event_pairs(cpus@.subrange(0, j + 1), events@) == done + row);
        let mut e: usize = 0;
        while e < events.len()
            invariant
                j < cpus@.len(),
                cpu == cpus@[j as int],
                e <= events@.len(),
                row == events@.map_values(|h: Hardware| (cpu, h)),
                opened.len() == done.len() + e,
                failure_pairs(failures@) == pairs_with(done + row.subrange(0, e as int), opened, false),
                cpu_counter_keys(counters@) == pair_keys(pairs_with(done + row.subrange(0, e as int), opened, true)),
                forall|k: int|
                    0 <= k < counters@.len() ==> is_cpu_event(
                        cpus@,
                        events@,
                        (#[trigger] counters@[k]).cpu,
                        counters@[k].name@,
                    ),
                forall|k: int|
                    0 <= k < failures@.len() ==> cpus@.contains((#[trigger] failures@[k]).0)
                        && events@.contains(failures@[k].1) && failures@[k].2 is CounterSetup,
            decreases events@.len() - e,
        {
            let h = events[e];
            let config = PerfConfig::new().with_cpu(cpu);
            let ev = PerfEvent::Hardware(h);
            assert(event_names(events@)[e as int] == stat_event_name(h));
            let ghost before = done + row.subrange(0, e as int);
            let ghost after = done + row.subrange(0, e + 1);
            assert(after.drop_last() =~= before);
            assert(after.last() == (cpu, h));
            let ghost old_counters = counters@;
            let ghost old_failures = failures@;
            let ghost old_opened = opened;
            match create_counter(&ev, &config) {
                Ok(counter) => {
                    counters.push(CpuCounter { cpu, name: format_event_name(&h), counter });
                    proof {
                        opened = opened.push(true);
                        assert(opened.drop_last() =~= old_opened);
                        assert(pairs_with(after, opened, false) == pairs_with(before, old_opened, false));
                        assert(pairs_with(after, opened, true) == pairs_with(before, old_opened, true).push((cpu, h)));
                        assert(cpu_counter_keys(counters@) =~= cpu_counter_keys(old_counters).push(
                            (cpu, stat_event_name(h)),
                        ));
                        assert(pair_keys(pairs_with(after, opened, true)) =~= pair_keys(
                            pairs_with(before, old_opened, true),
                        ).push((cpu, stat_event_name(h))));
                    }
                },
                Err(err) => {
                    failures.push((cpu, h, err));
                    proof {
                        opened = opened.push(false);
                        assert(opened.drop_last() =~= old_opened);
                        assert(pairs_with(after, opened, true) == pairs_with(before, old_opened, true));
                        assert(pairs_with(after, opened, false) == pairs_with(before, old_opened, false).push((cpu, h)));
                        assert(failure_pairs(failures@) =~= failure_pairs(old_failures).push((cpu, h)));
                    }
                },
            }
            e = e + 1;
        }
        assert(row.subrange(0, events@.len() as int) =~= row);
        j = j + 1;
    }
    assert(cpus@.subrange(0, cpus@.len() as int) =~= cpus@);
    if counters.len() == 0 {
        return (
            Err(
                CommandError::Message(
                    string_of("Failed to create any counters. All CPUs may be offline or inaccessible."),
                ),
            ),
            failures,
        );
    }
    (Ok(counters), failures)
}

/// Starts each counter; failures are ignored.
pub fn enable_cpu_counters(counters: &mut Vec<CpuCounter>)
    ensures
        cpu_counter_keys(final(counters)@) == cpu_counter_keys(old(counters)@),
{
    let mut i: usize = 0;
    while i < counters.len()
        invariant
            i <= counters@.len(),
            cpu_counter_keys(counters@) == cpu_counter_keys(old(counters)@),
        decreases counters@.len() - i,
    {
        let ghost before = counters@;
        let c = &mut counters[i];
        let _ = enable_counter(&mut c.counter, c.name.as_str());
        assert(cpu_counter_keys(counters@) =~= cpu_counter_keys(before));
        i = i + 1;
    }
}

/// Stops each counter; failures are ignored.
pub fn disable_cpu_counters(counters: &mut Vec<CpuCounter>)
    ensures
        cpu_counter_keys(final(counters)@) == cpu_counter_keys(old(counters)@),
{
    let mut i: usize = 0;
    while i < counters.len()
        invariant
            i <= counters@.len(),
            cpu_counter_keys(counters@) == cpu_counter_keys(old(counters)@),
        decreases counters@.len() - i,
    {
        let ghost before = counters@;
        let c = &mut counters[i];
        let _ = disable_counter(&mut c.counter, c.name.as_str());
        assert(cpu_counter_keys(counters@) =~= cpu_counter_keys(before));
        i = i + 1;
    }
}

/// Reads each counter; the readings, as (CPU, event name, value), and the
/// failures, as (CPU, event name, error), both in the order of the
/// counters.
pub fn read_cpu_counters(counters: &mut Vec<CpuCounter>) -> (r: (
    Vec<(u32, String, u64)>,
    Vec<(u32, String, PerfError)>,
))
    ensures
        cpu_counter_keys(final(counters)@) == cpu_counter_keys(old(counters)@),
        forall|k: int|
            0 <= k < r.0@.len() ==> cpu_counter_keys(old(counters)@).contains(
                ((#[trigger] r.0@[k]).0, r.0@[k].1@),
            ),
        forall|k: int|
            0 <= k < r.1@.len() ==> cpu_counter_keys(old(counters)@).contains(
                ((#[trigger] r.1@[k]).0, r.1@[k].1@),
            ) && r.1@[k].2 is CounterRead,
        r.0@.len() + r.1@.len() == old(counters)@.len(),
{
    let mut values: Vec<(u32, String, u64)> = Vec::new();
    let mut failures: Vec<(u32, String, PerfError)> = Vec::new();
    let ghost keys = cpu_counter_keys(old(counters)@);
    let mut i: usize = 0;
    while i < counters.len()
        invariant
            i <= counters@.len(),
            keys == cpu_counter_keys(old(counters)@),
            cpu_counter_keys(counters@) == keys,
            values@.len() + failures@.len() == i,
            forall|k: int| 0 <= k < values@.len() ==> keys.contains(((#[trigger] values@[k]).0, values@[k].1@)),
            forall|k: int|
                0 <= k < failures@.len() ==> keys.contains(((#[trigger] failures@[k]).0, failures@[k].1@))
                    && failures@[k].2 is CounterRead,
        decreases counters@.len() - i,
    {
        let ghost before = counters@;
        assert(keys[i as int] == (before[i as int].cpu, before[i as int].name@));
        let c = &mut counters[i];
        let cpu = c.cpu;
        let name = c.name.clone();
        let res = read_counter(&mut c.counter, c.name.as_str());
        assert(cpu_counter_keys(counters@) =~= cpu_counter_keys(before));
        match res {
            Ok(v) => {
                values.push((cpu, name, v));
            },
            Err(e) => {
                failures.push((cpu, name, e));
            },
        }
        i = i + 1;
    }
    (values, failures)
}

/// The readings in the order of CPU, then of event name.
pub open spec fn cpu_then_name(a: (u32, Seq<char>), b: (u32, Seq<char>)) -> bool {
    a.0 < b.0 || (a.0 == b.0 && lex_le(a.1, b.1))
}

impl Ranked for (u32, String, u64) {
    open spec fn ranks_before(self, other: Self) -> bool {
        cpu_then_name((self.0, self.1@), (other.0, other.1@))
    }

    proof fn lemma_ranks_total(a: Self, b: Self) {
        lemma_lex_total(a.1@, b.1@);
    }

    proof fn lemma_ranks_trans(a: Self, b: Self, c: Self) {
        if a.0 == b.0 && b.0 == c.0 {
            lemma_lex_trans(a.1@, b.1@, c.1@);
        }
    }

    fn le(&self, other: &Self) -> (r: bool) {
        self.0 < other.0 || (self.0 == other.0 && str_le(self.1.as_str(), other.1.as_str()))
    }
}

/// Orders per-CPU readings by CPU, then event name.
pub fn sort_per_cpu(values: Vec<(u32, String, u64)>) -> (r: Vec<(u32, String, u64)>)
    ensures
        ranked_sorted(r@),
        r@.to_multiset() == values@.to_multiset(),
{
    sort_ranked(values)
}

} // verus!
