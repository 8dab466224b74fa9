//! How the list is laid out: the events that pass the filter, split by
//! category, hardware and software events by name, tracepoints by
//! subsystem and then by name.

use vstd::prelude::*;
use crate::commands::list::{event_matches, matches_filter, EventInfo};
use crate::commands::record::opt_str_view;
use crate::order::{
    lemma_lex_antisym, lemma_lex_total, lemma_lex_trans, lemma_map_multiset, lex_le, ranked_sorted,
    sort_ranked, str_le, Ranked,
};
use crate::text::{chars_eq_str, chars_to_string, find_char, first_index, str_to_chars, sub_chars};

verus! {

/// Whether an event passes the filter (every event passes no filter).
pub open spec fn passes(e: EventInfo, filter: Option<Seq<char>>) -> bool {
    match filter {
        None => true,
        Some(f) => event_matches(e@, f),
    }
}

/// The events of a category that pass the filter, in order.
pub open spec fn section(s: Seq<EventInfo>, filter: Option<Seq<char>>, category: Seq<char>) -> Seq<EventInfo>
    decreases s.len(),
{
    if s.len() == 0 {
        Seq::empty()
    } else {
        let rest = section(s.drop_first(), filter, category);
        if passes(s[0], filter) && s[0].category@ == category {
            seq![s[0]] + rest
        } else {
            rest
        }
    }
}

/// How many events pass the filter.
pub open spec fn matched_count(s: Seq<EventInfo>, filter: Option<Seq<char>>) -> nat
    decreases s.len(),
{
    if s.len() == 0 {
        0
    } else {
        matched_count(s.drop_first(), filter) + if passes(s[0], filter) {
            1nat
        } else {
            0nat
        }
    }
}

/// The subsystem of a tracepoint name: the text before the first `:`, or
/// all of it.
pub open spec fn subsystem_of(name: Seq<char>) -> Seq<char> {
    match first_index(name, ':') {
        Some(i) => name.subrange(0, i),
        None => name,
    }
}

impl Ranked for EventInfo {
    open spec fn ranks_before(self, other: Self) -> bool {
        lex_le(self.name@, other.name@)
    }

    proof fn lemma_ranks_total(a: Self, b: Self) {
        lemma_lex_total(a.name@, b.name@);
    }

    proof fn lemma_ranks_trans(a: Self, b: Self, c: Self) {
        lemma_lex_trans(a.name@, b.name@, c.name@);
    }

    fn le(&self, other: &Self) -> (r: bool) {
        str_le(self.name.as_str(), other.name.as_str())
    }
}

/// A tracepoint with its subsystem, ordered by subsystem, then name.
impl Ranked for (String, EventInfo) {
    open spec fn ranks_before(self, other: Self) -> bool {
        (lex_le(self.0@, other.0@) && self.0@ != other.0@) || (self.0@ == other.0@ && lex_le(
            self.1.name@,
            other.1.name@,
        ))
    }

    proof fn lemma_ranks_total(a: Self, b: Self) {
        lemma_lex_total(a.0@, b.0@);
        lemma_lex_total(a.1.name@, b.1.name@);
    }

    proof fn lemma_ranks_trans(a: Self, b: Self, c: Self) {
        if lex_le(a.0@, b.0@) && lex_le(b.0@, c.0@) {
            lemma_lex_trans(a.0@, b.0@, c.0@);
            if a.0@ == c.0@ {
                lemma_lex_antisym(a.0@, b.0@);
            }
        }
        if a.0@ == b.0@ && b.0@ == c.0@ {
            lemma_lex_trans(a.1.name@, b.1.name@, c.1.name@);
        }
    }

    fn le(&self, other: &Self) -> (r: bool) {
        let ab = str_le(self.0.as_str(), other.0.as_str());
        let ba = str_le(other.0.as_str(), self.0.as_str());
        proof {
            lemma_lex_total(self.0@, self.0@);
            if ab && ba {
                lemma_lex_antisym(self.0@, other.0@);
            }
        }
        if ab && !ba {
            true
        } else if ab && ba {
            str_le(self.1.name.as_str(), other.1.name.as_str())
        } else {
            false
        }
    }
}

/// Whether a sequence is in the order of names.
pub open spec fn sorted_by_name(s: Seq<EventInfo>) -> bool {
    forall|i: int, j: int| 0 <= i < j < s.len() ==> lex_le((#[trigger] s[i]).name@, (#[trigger] s[j]).name@)
}

/// The events of the groups, one group after the other.
pub open spec fn flatten_groups(g: Seq<(String, Vec<EventInfo>)>) -> Seq<EventInfo>
    decreases g.len(),
{
    if g.len() == 0 {
        Seq::empty()
    } else {
        flatten_groups(g.drop_last()) + g.last().1@
    }
}

/// Whether tracepoints are grouped by subsystem: subsystems strictly in
/// order, each group not empty, of its subsystem, and in the order of
/// names.
pub open spec fn grouped_by_subsystem(g: Seq<(String, Vec<EventInfo>)>) -> bool {
    &&& forall|a: int, b: int|
        0 <= a < b < g.len() ==> lex_le((#[trigger] g[a]).0@, (#[trigger] g[b]).0@) && g[a].0@ != g[b].0@
    &&& forall|a: int|
        0 <= a < g.len() ==> (#[trigger] g[a]).1@.len() > 0 && sorted_by_name(g[a].1@) && forall|k: int|
            0 <= k < g[a].1@.len() ==> subsystem_of((#[trigger] g[a].1@[k]).name@) == g[a].0@
}

/// The list, laid out.
pub struct ListSections {
    /// How many events passed the filter.
    pub matched: usize,
    pub hardware: Vec<EventInfo>,
    pub software: Vec<EventInfo>,
    pub raw: Vec<EventInfo>,
    /// Tracepoints by subsystem.
    pub tracepoints: Vec<(String, Vec<EventInfo>)>,
}

fn subsystem_string(name: &str) -> (r: String)
    ensures
        r@ == subsystem_of(name@),
{
    let v = str_to_chars(name);
    let n: usize = v.len();
    match find_char(v.as_slice(), ':') {
        Some(i) => chars_to_string(sub_chars(v.as_slice(), 0, i).as_slice()),
        None => chars_to_string(v.as_slice()),
    }
}

fn category_is(e: &EventInfo, c: &str) -> (r: bool)
    ensures
        r == (e.category@ == c@),
{
    let v = str_to_chars(e.category.as_str());
    chars_eq_str(v.as_slice(), c)
}

/// Groups tracepoints, given in the order of subsystem and then name,
/// by subsystem.
fn group_sorted(sorted: Vec<(String, EventInfo)>) -> (r: Vec<(String, Vec<EventInfo>)>)
    requires
        ranked_sorted(sorted@),
        forall|k: int| 0 <= k < sorted@.len() ==> (#[trigger] sorted@[k]).0@ == subsystem_of(sorted@[k].1.name@),
    ensures
        grouped_by_subsystem(r@),
        flatten_groups(r@) == sorted@.map_values(|p: (String, EventInfo)| p.1),
{
    let ghost all = sorted@;
    let ghost f = |p: (String, EventInfo)| p.1;
    let mut rest = sorted;
    let mut groups: Vec<(String, Vec<EventInfo>)> = Vec::new();
    let ghost mut taken: int = 0;
    while rest.len() > 0
        invariant
            0 <= taken <= all.len(),
            rest@ == all.skip(taken),
            ranked_sorted(all),
            forall|k: int| 0 <= k < all.len() ==> (#[trigger] all[k]).0@ == subsystem_of(all[k].1.name@),
            grouped_by_subsystem(groups@),
            flatten_groups(groups@) == all.subrange(0, taken).map_values(f),
            f == (|p: (String, EventInfo)| p.1),
            taken > 0 ==> groups@.len() > 0 && groups@.last().0@ == all[taken - 1].0@
                && groups@.last().1@.last() == all[taken - 1].1,
            taken == 0 ==> groups@.len() == 0,
        decreases rest@.len(),
    {
        let (sub, info) = rest.remove(0);
        assert(all[taken] == (sub, info));
        let ghost old_groups = groups@;
        let same = if groups.len() > 0 {
            let last: usize = groups.len() - 1;
            let a = str_le(groups[last].0.as_str(), sub.as_str());
            let b = str_le(sub.as_str(), groups[last].0.as_str());
            a && b
        } else {
            false
        };
        if same {
            proof {
                lemma_lex_antisym(groups@.last().0@, sub@);
            }
            let (key, mut members) = match groups.pop() {
                Some(g) => g,
                None => {
                    return groups;
                },
            };
            let ghost old_members = members@;
            members.push(info);
            groups.push((key, members));
            proof {
                let g = groups@;
                let last = g.len() - 1;
                assert(g.drop_last() =~= old_groups.drop_last());
                assert(ranked_sorted(all));
                assert(all[taken - 1].ranks_before(all[taken]));
                assert(lex_le(old_members.last().name@, info.name@));
                assert forall|x: int, y: int| 0 <= x < y < g[last].1@.len() implies lex_le(
                    (#[trigger] g[last].1@[x]).name@,
                    (#[trigger] g[last].1@[y]).name@,
                ) by {
                    if y == g[last].1@.len() - 1 {
                        if x < y - 1 {
                            lemma_lex_trans(old_members[x].name@, old_members.last().name@, info.name@);
                        }
                    }
                }
                assert forall|a: int| 0 <= a < g.len() implies (#[trigger] g[a]).1@.len() > 0 && sorted_by_name(
                    g[a].1@,
                ) && forall|k: int|
                    0 <= k < g[a].1@.len() ==> subsystem_of((#[trigger] g[a].1@[k]).name@) == g[a].0@ by {
                    if a < last {
                        assert(g[a] == old_groups[a]);
                    }
                }
                assert forall|a: int, b: int| 0 <= a < b < g.len() implies lex_le(
                    (#[trigger] g[a]).0@,
                    (#[trigger] g[b]).0@,
                ) && g[a].0@ != g[b].0@ by {
                    assert(g[a] == old_groups[a]);
                    if b < last {
                        assert(g[b] == old_groups[b]);
                    }
                }
                assert(flatten_groups(g) =~= flatten_groups(old_groups) + seq![info]) by {
                    assert(flatten_groups(old_groups) == flatten_groups(old_groups.drop_last())
                        + old_members);
                }
                assert(all.subrange(0, taken + 1).map_values(f) =~= all.subrange(0, taken).map_values(
                    f,
                ).push(info));
            }
            proof {
                taken = taken + 1;
            }
        } else {
            proof {
                if taken > 0 {
                    assert(all[taken - 1].ranks_before(all[taken]));
                    assert(old_groups.last().0@ != sub@) by {
                        if old_groups.last().0@ == sub@ {
                            lemma_lex_total(sub@, sub@);
                        }
                    }
                }
            }
            let mut members: Vec<EventInfo> = Vec::new();
            members.push(info);
            groups.push((sub, members));
            proof {
                let g = groups@;
                let last = g.len() - 1;
                assert forall|a: int| 0 <= a < g.len() implies (#[trigger] g[a]).1@.len() > 0 && sorted_by_name(
                    g[a].1@,
                ) && forall|k: int|
                    0 <= k < g[a].1@.len() ==> subsystem_of((#[trigger] g[a].1@[k]).name@) == g[a].0@ by {
                    if a < last {
                        assert(g[a] == old_groups[a]);
                    }
                }
                assert forall|a: int, b: int| 0 <= a < b < g.len() implies lex_le(
                    (#[trigger] g[a]).0@,
                    (#[trigger] g[b]).0@,
                ) && g[a].0@ != g[b].0@ by {
                    assert(g[a] == old_groups[a]);
                    if b < last {
                        assert(g[b] == old_groups[b]);
                    } else {
                        if a < last - 1 {
                            lemma_lex_trans(old_groups[a].0@, old_groups.last().0@, sub@);
                            if old_groups[a].0@ == sub@ {
                                lemma_lex_antisym(old_groups[a].0@, old_groups.last().0@);
                            }
                        }
                    }
                }
                assert(g.drop_last() =~= old_groups);
                assert(flatten_groups(g) =~= flatten_groups(old_groups) + seq![info]);
                assert(all.subrange(0, taken + 1).map_values(f) =~= all.subrange(0, taken).map_values(
                    f,
                ).push(info));
                taken = taken + 1;
            }
        }
        assert(rest@ =~= all.skip(taken));
    }
    assert(all.subrange(0, taken) =~= all);
    groups
}

proof fn lemma_matched_bound(s: Seq<EventInfo>, filter: Option<Seq<char>>)
    ensures
        matched_count(s, filter) <= s.len(),
    decreases s.len(),
{
    if s.len() > 0 {
        lemma_matched_bound(s.drop_first(), filter);
    }
}

/// Lays out the list: the events that pass the filter (all when there is
/// none), counted; hardware and software events each in the order of
/// names; raw events as given; tracepoints grouped by subsystem. Events of
/// other categories are counted but shown in no section.
pub fn list_sections(events: Vec<EventInfo>, filter: Option<&str>) -> (r: ListSections)
    ensures
        r.matched == matched_count(events@, opt_str_view(filter)),
        ranked_sorted(r.hardware@),
        r.hardware@.to_multiset() == section(events@, opt_str_view(filter), "Hardware event"@).to_multiset(),
        ranked_sorted(r.software@),
        r.software@.to_multiset() == section(events@, opt_str_view(filter), "Software event"@).to_multiset(),
        r.raw@ == section(events@, opt_str_view(filter), "Raw event"@),
        grouped_by_subsystem(r.tracepoints@),
        flatten_groups(r.tracepoints@).to_multiset() == section(
            events@,
            opt_str_view(filter),
            "Tracepoint event"@,
        ).to_multiset(),
{
    let ghost orig = events@;
    let ghost fv = opt_str_view(filter);
    let total: usize = events.len();
    let mut rest = events;
    let mut matched: usize = 0;
    let mut hw: Vec<EventInfo> = Vec::new();
    let mut sw: Vec<EventInfo> = Vec::new();
    let mut raw: Vec<EventInfo> = Vec::new();
    let mut tp: Vec<EventInfo> = Vec::new();
    proof {
        lemma_matched_bound(orig, fv);
        reveal_strlit("Hardware event");
        reveal_strlit("Software event");
        reveal_strlit("Raw event");
        reveal_strlit("Tracepoint event");
        assert("Hardware event"@[0] != "Software event"@[0]);
        assert("Hardware event"@.len() != "Raw event"@.len());
        assert("Hardware event"@.len() != "Tracepoint event"@.len());
        assert("Software event"@.len() != "Raw event"@.len());
        assert("Software event"@.len() != "Tracepoint event"@.len());
        assert("Raw event"@.len() != "Tracepoint event"@.len());
    }
    while rest.len() > 0
        invariant
            fv == opt_str_view(filter),
            matched as nat + matched_count(rest@, fv) == matched_count(orig, fv),
            matched_count(orig, fv) <= orig.len(),
            orig.len() == total,
            "Hardware event"@ != "Software event"@,
            "Hardware event"@ != "Raw event"@,
            "Hardware event"@ != "Tracepoint event"@,
            "Software event"@ != "Raw event"@,
            "Software event"@ != "Tracepoint event"@,
            "Raw event"@ != "Tracepoint event"@,
            hw@ + section(rest@, fv, "Hardware event"@) == section(orig, fv, "Hardware event"@),
            sw@ + section(rest@, fv, "Software event"@) == section(orig, fv, "Software event"@),
            raw@ + section(rest@, fv, "Raw event"@) == section(orig, fv, "Raw event"@),
            tp@ + section(rest@, fv, "Tracepoint event"@) == section(orig, fv, "Tracepoint event"@),
        decreases rest@.len(),
    {
        let ghost before = rest@;
        let e = rest.remove(0);
        assert(rest@ =~= before.drop_first());
        let pass = match filter {
            None => true,
            Some(f) => matches_filter(&e, f),
        };
        assert(pass == passes(e, fv));
        proof {
            lemma_matched_bound(rest@, fv);
        }
        if pass {
            matched = matched + 1;
            if category_is(&e, "Hardware event") {
                hw.push(e);
            } else if category_is(&e, "Software event") {
                sw.push(e);
            } else if category_is(&e, "Raw event") {
                raw.push(e);
            } else if category_is(&e, "Tracepoint event") {
                tp.push(e);
            }
        }
        proof {
            assert(hw@ + section(rest@, fv, "Hardware event"@) =~= section(orig, fv, "Hardware event"@));
            assert(sw@ + section(rest@, fv, "Software event"@) =~= section(orig, fv, "Software event"@));
            assert(raw@ + section(rest@, fv, "Raw event"@) =~= section(orig, fv, "Raw event"@));
            assert(tp@ + section(rest@, fv, "Tracepoint event"@) =~= section(orig, fv, "Tracepoint event"@));
        }
    }
    assert(hw@ =~= section(orig, fv, "Hardware event"@));
    assert(sw@ =~= section(orig, fv, "Software event"@));
    assert(raw@ =~= section(orig, fv, "Raw event"@));
    assert(tp@ =~= section(orig, fv, "Tracepoint event"@));
    let hardware = sort_ranked(hw);
    let software = sort_ranked(sw);
    let ghost tps = tp@;
    let mut pairs: Vec<(String, EventInfo)> = Vec::new();
    let mut tpr = tp;
    let ghost f = |p: (String, EventInfo)| p.1;
    while tpr.len() > 0
        invariant
            f == (|p: (String, EventInfo)| p.1),
            pairs@.map_values(f) + tpr@ == tps,
            forall|k: int| 0 <= k < pairs@.len() ==> (#[trigger] pairs@[k]).0@ == subsystem_of(pairs@[k].1.name@),
        decreases tpr@.len(),
    {
        let ghost before = tpr@;
        let e = tpr.remove(0);
        let sub = subsystem_string(e.name.as_str());
        pairs.push((sub, e));
        assert(pairs@.map_values(f) + tpr@ =~= tps);
    }
    assert(pairs@.map_values(f) =~= tps);
    let ghost unsorted = pairs@;
    let sorted = sort_ranked(pairs);
    assert forall|k: int| 0 <= k < sorted@.len() implies (#[trigger] sorted@[k]).0@ == subsystem_of(
        sorted@[k].1.name@,
    ) by {
        broadcast use vstd::seq_lib::group_to_multiset_ensures;

        assert(sorted@.to_multiset().contains(sorted@[k]));
        assert(unsorted.to_multiset().contains(sorted@[k]));
        let j = choose|j: int| 0 <= j < unsorted.len() && unsorted[j] == sorted@[k];
    }
    let ghost sorted_view = sorted@;
    let tracepoints = group_sorted(sorted);
    proof {
        lemma_map_multiset(sorted_view, unsorted, f);
    }
    ListSections { matched, hardware, software, raw, tracepoints }
}

} // verus!
