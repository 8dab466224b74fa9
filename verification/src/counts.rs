//! Counter values by event name: sums per name and orders.

use vstd::prelude::*;
use crate::commands::report::add_wrapping;
use crate::order::{lemma_lex_antisym, lex_le, lemma_lex_total, lemma_lex_trans, str_le, Ranked};

verus! {

impl Ranked for (String, u64) {
    open spec fn ranks_before(self, other: Self) -> bool {
        lex_le(self.0@, other.0@)
    }

    proof fn lemma_ranks_total(a: Self, b: Self) {
        lemma_lex_total(a.0@, b.0@);
    }

    proof fn lemma_ranks_trans(a: Self, b: Self, c: Self) {
        lemma_lex_trans(a.0@, b.0@, c.0@);
    }

    fn le(&self, other: &Self) -> (r: bool) {
        str_le(self.0.as_str(), other.0.as_str())
    }
}

/// Name and value of each entry.
pub open spec fn counts_view(s: Seq<(String, u64)>) -> Seq<(Seq<char>, u64)> {
    s.map_values(|p: (String, u64)| (p.0@, p.1))
}

/// The names of the entries.
pub open spec fn count_names(s: Seq<(Seq<char>, u64)>) -> Seq<Seq<char>> {
    s.map_values(|p: (Seq<char>, u64)| p.0)
}

/// The sum (modulo 2^64) of the values of the entries with a name.
pub open spec fn name_total(s: Seq<(Seq<char>, u64)>, n: Seq<char>) -> u64
    decreases s.len(),
{
    if s.len() == 0 {
        0
    } else {
        let t = name_total(s.drop_last(), n);
        if s.last().0 == n {
            add_wrapping(t, s.last().1)
        } else {
            t
        }
    }
}

/// Whether the names of the entries strictly increase.
pub open spec fn strictly_by_name(s: Seq<(Seq<char>, u64)>) -> bool {
    forall|i: int, j: int|
        0 <= i < j < s.len() ==> lex_le((#[trigger] s[i]).0, (#[trigger] s[j]).0) && s[i].0 != s[j].0
}

proof fn lemma_total_absent(s: Seq<(Seq<char>, u64)>, n: Seq<char>)
    requires
        !count_names(s).contains(n),
    ensures
        name_total(s, n) == 0,
    decreases s.len(),
{
    if s.len() > 0 {
        assert(count_names(s.drop_last()) =~= count_names(s).drop_last());
        assert(count_names(s)[s.len() - 1] == s.last().0);
        if count_names(s.drop_last()).contains(n) {
            let k = choose|k: int| 0 <= k < count_names(s.drop_last()).len() && count_names(s.drop_last())[k] == n;
            assert(count_names(s)[k] == n);
        }
        lemma_total_absent(s.drop_last(), n);
    }
}

/// Sums the values of each name: one entry per name that occurs, in the
/// order of names, with the sum of its values modulo 2^64.
pub fn aggregate_by_name(values: &[(String, u64)]) -> (r: Vec<(String, u64)>)
    ensures
        strictly_by_name(counts_view(r@)),
        count_names(counts_view(r@)).to_set() == count_names(counts_view(values@)).to_set(),
        forall|k: int|
            0 <= k < r@.len() ==> (#[trigger] r@[k]).1 == name_total(counts_view(values@), r@[k].0@),
{
    let ghost vs = counts_view(values@);
    let mut out: Vec<(String, u64)> = Vec::new();
    let mut i: usize = 0;
    while i < values.len()
        invariant
            i <= values@.len(),
            vs == counts_view(values@),
            strictly_by_name(counts_view(out@)),
            count_names(counts_view(out@)).to_set() == count_names(vs.subrange(0, i as int)).to_set(),
            forall|k: int|
                0 <= k < out@.len() ==> (#[trigger] out@[k]).1 == name_total(
                    vs.subrange(0, i as int),
                    out@[k].0@,
                ),
        decreases values@.len() - i,
    {
        let ghost pre = vs.subrange(0, i as int);
        let ghost post = vs.subrange(0, i + 1);
        assert(post.drop_last() =~= pre);
        assert(post.last() == vs[i as int]);
        let name = &values[i].0;
        let v = values[i].1;
        let ghost n = name@;
        assert(vs[i as int] == (n, v));
        let ghost ov = counts_view(out@);
        let mut p: usize = 0;
        let mut found = false;
        while p < out.len() && !found
            invariant
                p <= out@.len(),
                ov == counts_view(out@),
                n == name@,
                forall|k: int| 0 <= k < p ==> lex_le((#[trigger] ov[k]).0, n) && ov[k].0 != n,
                found ==> p < out@.len() && lex_le(n, ov[p as int].0),
            decreases out@.len() - p + (if found {
                0int
            } else {
                1int
            }),
        {
            if str_le(name.as_str(), out[p].0.as_str()) {
                found = true;
            } else {
                proof {
                    lemma_lex_total(n, ov[p as int].0);
                }
                p = p + 1;
            }
        }
        let same = found && str_le(out[p].0.as_str(), name.as_str());
        if same {
            proof {
                lemma_lex_antisym(n, ov[p as int].0);
            }
            let total = out[p].1.wrapping_add(v);
            let entry = (out[p].0.clone(), total);
            out.set(p, entry);
            proof {
                assert(counts_view(out@) =~= ov.update(p as int, (n, total)));
                assert(count_names(counts_view(out@)) =~= count_names(ov));
                assert(count_names(post) =~= count_names(pre).push(n));
                assert(count_names(ov)[p as int] == n);
                assert(count_names(pre).to_set().contains(n));
                count_names(pre).lemma_push_to_set_commute(n);
                assert(count_names(post).to_set() =~= count_names(pre).to_set());
                assert forall|k: int| 0 <= k < out@.len() implies (#[trigger] out@[k]).1 == name_total(
                    post,
                    out@[k].0@,
                ) by {
                    if k != p {
                        assert(ov[k].0 != n);
                    }
                }
            }
        } else {
            let ghost at_p = p as int;
            proof {
                if found {
                    assert(n != ov[p as int].0) by {
                        if n == ov[p as int].0 {
                            lemma_lex_total(n, n);
                        }
                    }
                }
                assert(!count_names(ov).contains(n)) by {
                    if count_names(ov).contains(n) {
                        let k = choose|k: int| 0 <= k < count_names(ov).len() && count_names(ov)[k] == n;
                        assert(ov[k].0 == n);
                        if k >= p {
                            if k > p {
                                lemma_lex_trans(n, ov[p as int].0, ov[k].0);
                                lemma_lex_antisym(ov[p as int].0, ov[k].0);
                            }
                        }
                    }
                }
                assert(!count_names(pre).to_set().contains(n));
                assert(!count_names(pre).contains(n));
                lemma_total_absent(pre, n);
            }
            out.insert(p, (name.clone(), v));
            proof {
                assert(counts_view(out@) =~= ov.insert(at_p, (n, v)));
                assert(count_names(counts_view(out@)) =~= count_names(ov).insert(at_p, n));
                assert(count_names(post) =~= count_names(pre).push(n));
                assert(count_names(ov).insert(at_p, n).to_set() =~= count_names(ov).to_set().insert(n)) by {
                    assert forall|x: Seq<char>| count_names(ov).insert(at_p, n).to_set().contains(x) <==> count_names(ov).to_set().insert(n).contains(x) by {
                        if count_names(ov).insert(at_p, n).contains(x) {
                            let k = choose|k: int| 0 <= k < count_names(ov).insert(at_p, n).len() && count_names(ov).insert(at_p, n)[k] == x;
                            if k < at_p {
                                assert(count_names(ov)[k] == x);
                            } else if k > at_p {
                                assert(count_names(ov)[k - 1] == x);
                            }
                        }
                        if count_names(ov).contains(x) {
                            let k = choose|k: int| 0 <= k < count_names(ov).len() && count_names(ov)[k] == x;
                            if k < at_p {
                                assert(count_names(ov).insert(at_p, n)[k] == x);
                            } else {
                                assert(count_names(ov).insert(at_p, n)[k + 1] == x);
                            }
                        }
                        if x == n {
                            assert(count_names(ov).insert(at_p, n)[at_p] == x);
                        }
                    }
                }
                count_names(pre).lemma_push_to_set_commute(n);
                let nv = counts_view(out@);
                assert forall|a: int, b: int| 0 <= a < b < nv.len() implies lex_le((#[trigger] nv[a]).0, (#[trigger] nv[b]).0)
                    && nv[a].0 != nv[b].0 by {
                    if b < at_p {
                        assert(nv[a] == ov[a] && nv[b] == ov[b]);
                    } else if b == at_p {
                        assert(nv[a] == ov[a]);
                    } else if a > at_p {
                        assert(nv[a] == ov[a - 1] && nv[b] == ov[b - 1]);
                    } else if a == at_p {
                        assert(nv[b] == ov[b - 1]);
                        if b - 1 > at_p {
                            lemma_lex_trans(n, ov[at_p].0, ov[b - 1].0);
                            if n == ov[b - 1].0 {
                                lemma_lex_antisym(ov[at_p].0, ov[b - 1].0);
                            }
                        }
                    } else {
                        assert(nv[a] == ov[a] && nv[b] == ov[b - 1]);
                    }
                }
                assert forall|k: int| 0 <= k < out@.len() implies (#[trigger] out@[k]).1 == name_total(
                    post,
                    out@[k].0@,
                ) by {
                    if k < at_p {
                        assert(nv[k] == ov[k]);
                        assert(ov[k].0 != n);
                    } else if k > at_p {
                        assert(nv[k] == ov[k - 1]);
                        assert(ov[k - 1].0 != n) by {
                            if ov[k - 1].0 == n {
                                assert(count_names(ov)[k - 1] == n);
                            }
                        }
                    }
                }
            }
        }
        i = i + 1;
    }
    assert(vs.subrange(0, values@.len() as int) =~= vs);
    out
}

} // verus!
