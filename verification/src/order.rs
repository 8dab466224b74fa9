//! Orders on text and a stable insertion sort over them. Text is ordered
//! as `String`'s `Ord` orders it: character by character, by code point,
//! a proper prefix first.

use vstd::prelude::*;
use crate::text::str_to_chars;

verus! {

/// Whether `a` comes no later than `b` in the lexicographic order of code
/// points.
pub open spec fn lex_le(a: Seq<char>, b: Seq<char>) -> bool
    decreases a.len(),
{
    if a.len() == 0 {
        true
    } else if b.len() == 0 {
        false
    } else if a[0] != b[0] {
        (a[0] as int) < (b[0] as int)
    } else {
        lex_le(a.drop_first(), b.drop_first())
    }
}

/// Any two texts are ordered one way or the other.
pub proof fn lemma_lex_total(a: Seq<char>, b: Seq<char>)
    ensures
        lex_le(a, b) || lex_le(b, a),
    decreases a.len(),
{
    if a.len() > 0 && b.len() > 0 && a[0] == b[0] {
        lemma_lex_total(a.drop_first(), b.drop_first());
    }
}

/// The order is transitive.
pub proof fn lemma_lex_trans(a: Seq<char>, b: Seq<char>, c: Seq<char>)
    requires
        lex_le(a, b),
        lex_le(b, c),
    ensures
        lex_le(a, c),
    decreases a.len(),
{
    if a.len() > 0 && b.len() > 0 && c.len() > 0 && a[0] == b[0] && b[0] == c[0] {
        lemma_lex_trans(a.drop_first(), b.drop_first(), c.drop_first());
    }
}

/// Texts ordered both ways are equal.
pub proof fn lemma_lex_antisym(a: Seq<char>, b: Seq<char>)
    requires
        lex_le(a, b),
        lex_le(b, a),
    ensures
        a == b,
    decreases a.len(),
{
    if a.len() > 0 && b.len() > 0 {
        lemma_lex_antisym(a.drop_first(), b.drop_first());
        assert(a =~= seq![a[0]] + a.drop_first());
        assert(b =~= seq![b[0]] + b.drop_first());
    }
}

/// Compares two character sequences in the lexicographic order.
pub fn chars_le(a: &[char], b: &[char]) -> (r: bool)
    ensures
        r == lex_le(a@, b@),
{
    let mut i: usize = 0;
    assert(a@.skip(0) =~= a@);
    assert(b@.skip(0) =~= b@);
    while i < a.len() && i < b.len()
        invariant
            i <= a@.len(),
            i <= b@.len(),
            lex_le(a@, b@) == lex_le(a@.skip(i as int), b@.skip(i as int)),
        decreases a@.len() - i,
    {
        assert(a@.skip(i as int).drop_first() =~= a@.skip(i + 1));
        assert(b@.skip(i as int).drop_first() =~= b@.skip(i + 1));
        if a[i] != b[i] {
            return a[i] < b[i];
        }
        i = i + 1;
    }
    i == a.len()
}

/// Compares two strings in the lexicographic order.
pub fn str_le(a: &str, b: &str) -> (r: bool)
    ensures
        r == lex_le(a@, b@),
{
    let x = str_to_chars(a);
    let y = str_to_chars(b);
    chars_le(x.as_slice(), y.as_slice())
}

/// A total preorder on the values of a type, decided by `le`.
pub trait Ranked: Sized {
    spec fn ranks_before(self, other: Self) -> bool;

    proof fn lemma_ranks_total(a: Self, b: Self)
        ensures
            a.ranks_before(b) || b.ranks_before(a),
    ;

    proof fn lemma_ranks_trans(a: Self, b: Self, c: Self)
        requires
            a.ranks_before(b),
            b.ranks_before(c),
        ensures
            a.ranks_before(c),
    ;

    fn le(&self, other: &Self) -> (r: bool)
        ensures
            r == self.ranks_before(*other),
    ;
}

/// Whether a sequence is in order.
pub open spec fn ranked_sorted<T: Ranked>(s: Seq<T>) -> bool {
    forall|i: int, j: int| 0 <= i < j < s.len() ==> (#[trigger] s[i]).ranks_before(#[trigger] s[j])
}

/// Sorts, keeping values that rank alike in their order (insertion sort).
pub fn sort_ranked<T: Ranked>(v: Vec<T>) -> (r: Vec<T>)
    ensures
        ranked_sorted(r@),
        r@.to_multiset() == v@.to_multiset(),
{
    broadcast use vstd::seq_lib::group_to_multiset_ensures;

    let ghost orig = v@;
    let mut rest = v;
    let mut out: Vec<T> = Vec::new();
    while rest.len() > 0
        invariant
            ranked_sorted(out@),
            out@.to_multiset().add(rest@.to_multiset()) == orig.to_multiset(),
        decreases rest@.len(),
    {
        let ghost before = rest@;
        let x = match rest.pop() {
            Some(x) => x,
            None => {
                return out;
            },
        };
        assert(before =~= rest@.push(x));
        proof {
            vstd::seq_lib::to_multiset_build(rest@, x);
        }
        let mut p: usize = 0;
        let mut found = false;
        while p < out.len() && !found
            invariant
                p <= out@.len(),
                ranked_sorted(out@),
                forall|k: int| 0 <= k < p ==> (#[trigger] out@[k]).ranks_before(x),
                found ==> p < out@.len() && x.ranks_before(out@[p as int]),
            decreases out@.len() - p + (if found {
                0int
            } else {
                1int
            }),
        {
            if x.le(&out[p]) {
                found = true;
            } else {
                proof {
                    T::lemma_ranks_total(x, out@[p as int]);
                }
                p = p + 1;
            }
        }
        let ghost old_out = out@;
        out.insert(p, x);
        proof {
            assert(out@ == old_out.insert(p as int, x));
            assert forall|i: int, j: int| 0 <= i < j < out@.len() implies (#[trigger] out@[i]).ranks_before(
                #[trigger] out@[j],
            ) by {
                if j < p {
                    assert(out@[i] == old_out[i] && out@[j] == old_out[j]);
                } else if j == p {
                    assert(out@[i] == old_out[i]);
                } else if i > p {
                    assert(out@[i] == old_out[i - 1] && out@[j] == old_out[j - 1]);
                } else if i == p {
                    assert(out@[j] == old_out[j - 1]);
                    if j - 1 > p {
                        T::lemma_ranks_trans(x, old_out[p as int], old_out[j - 1]);
                    }
                } else {
                    assert(out@[i] == old_out[i] && out@[j] == old_out[j - 1]);
                }
            }
            vstd::seq_lib::to_multiset_insert(old_out, p as int, x);
            assert(out@.to_multiset().add(rest@.to_multiset()) =~= old_out.to_multiset().add(
                before.to_multiset(),
            ));
        }
    }
    assert(rest@.to_multiset() =~= vstd::multiset::Multiset::<T>::empty());
    assert(out@.to_multiset() =~= out@.to_multiset().add(rest@.to_multiset()));
    out
}

/// Rearranging a sequence rearranges its image: sequences with the same
/// elements map to sequences with the same elements.
pub proof fn lemma_map_multiset<A, B>(a: Seq<A>, b: Seq<A>, f: spec_fn(A) -> B)
    requires
        a.to_multiset() == b.to_multiset(),
    ensures
        a.map_values(f).to_multiset() == b.map_values(f).to_multiset(),
    decreases a.len(),
{
    broadcast use vstd::seq_lib::group_to_multiset_ensures;

    if a.len() == 0 {
        vstd::seq_lib::to_multiset_len(b);
        assert(b.len() == 0);
        assert(a.map_values(f) =~= b.map_values(f));
    } else {
        let x = a[0];
        vstd::seq_lib::to_multiset_contains(a, x);
        assert(a.to_multiset().contains(x));
        vstd::seq_lib::to_multiset_contains(b, x);
        let i = choose|i: int| 0 <= i < b.len() && b[i] == x;
        vstd::seq_lib::to_multiset_remove(a, 0);
        vstd::seq_lib::to_multiset_remove(b, i);
        assert(a.remove(0) =~= a.drop_first());
        lemma_map_multiset(a.remove(0), b.remove(i), f);
        assert(a.map_values(f) =~= a.remove(0).map_values(f).insert(0, f(x)));
        assert(b.map_values(f) =~= b.remove(i).map_values(f).insert(i, f(x)));
        vstd::seq_lib::to_multiset_insert(a.remove(0).map_values(f), 0, f(x));
        vstd::seq_lib::to_multiset_insert(b.remove(i).map_values(f), i, f(x));
    }
}

} // verus!
