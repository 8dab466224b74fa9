//! Character-level text utilities used by the parsers and formatters.
//!
//! Text is handled as sequences of `char`. Each executable helper is
//! specified against a spec function over `Seq<char>`.

use vstd::prelude::*;

verus! {

// ---------------------------------------------------------------------
// Conversions between strings and character vectors
// ---------------------------------------------------------------------

/// Collects the characters of a string slice.
pub fn str_to_chars(s: &str) -> (v: Vec<char>)
    ensures
        v@ == s@,
{
    let mut v: Vec<char> = Vec::new();
    let n: usize = s.unicode_len();
    let mut i: usize = 0;
    while i < n
        invariant
            n == s@.len(),
            i <= n,
            v@ == s@.subrange(0, i as int),
        decreases n - i,
    {
        let c = s.get_char(i);
        v.push(c);
        i = i + 1;
        assert(v@ == s@.subrange(0, i as int));
    }
    assert(s@.subrange(0, n as int) == s@);
    v
}

/// Builds a `String` from a sequence of characters (`String::from_iter`).
#[verifier::external_body]
pub(crate) fn chars_to_string(v: &[char]) -> (s: String)
    ensures
        s@ == v@,
{
    String::from_iter(v.iter())
}

/// Builds a `String` from a string literal or slice.
pub fn string_of(s: &str) -> (r: String)
    ensures
        r@ == s@,
{
    String::from_str(s)
}

/// Copies the characters `v[lo..hi]` into a new vector.
pub fn sub_chars(v: &[char], lo: usize, hi: usize) -> (r: Vec<char>)
    requires
        lo <= hi <= v@.len(),
    ensures
        r@ == v@.subrange(lo as int, hi as int),
{
    let mut r: Vec<char> = Vec::new();
    let mut i: usize = lo;
    while i < hi
        invariant
            lo <= i <= hi,
            hi <= v@.len(),
            r@ == v@.subrange(lo as int, i as int),
        decreases hi - i,
    {
        r.push(v[i]);
        i = i + 1;
        assert(r@ == v@.subrange(lo as int, i as int));
    }
    r
}

/// Appends the characters of `src` to `dst`.
pub fn push_all(dst: &mut Vec<char>, src: &[char])
    ensures
        final(dst)@ == old(dst)@ + src@,
{
    let mut i: usize = 0;
    let ghost d0 = dst@;
    while i < src.len()
        invariant
            i <= src@.len(),
            dst@ == d0 + src@.subrange(0, i as int),
        decreases src@.len() - i,
    {
        dst.push(src[i]);
        i = i + 1;
        assert(dst@ == d0 + src@.subrange(0, i as int));
    }
    assert(src@.subrange(0, src@.len() as int) == src@);
}

/// Appends the characters of a string slice to `dst`.
pub fn push_str(dst: &mut Vec<char>, s: &str)
    ensures
        final(dst)@ == old(dst)@ + s@,
{
    let v = str_to_chars(s);
    push_all(dst, v.as_slice());
}

/// Whether two character sequences are equal.
pub fn chars_eq(a: &[char], b: &[char]) -> (r: bool)
    ensures
        r == (a@ == b@),
{
    if a.len() != b.len() {
        return false;
    }
    let mut i: usize = 0;
    while i < a.len()
        invariant
            a@.len() == b@.len(),
            i <= a@.len(),
            forall|j: int| 0 <= j < i ==> a@[j] == b@[j],
        decreases a@.len() - i,
    {
        if a[i] != b[i] {
            return false;
        }
        i = i + 1;
    }
    assert(a@ =~= b@);
    true
}

/// Whether a character sequence equals a string slice.
pub fn chars_eq_str(a: &[char], s: &str) -> (r: bool)
    ensures
        r == (a@ == s@),
{
    let b = str_to_chars(s);
    chars_eq(a, b.as_slice())
}

// ---------------------------------------------------------------------
// Whitespace and trimming
// ---------------------------------------------------------------------

/// The Unicode `White_Space` property, which is what Rust's
/// `char::is_whitespace` (and therefore `str::trim`) tests.
pub open spec fn is_ws(c: char) -> bool {
    ||| ('\u{9}' <= c && c <= '\u{d}')
    ||| c == ' '
    ||| c == '\u{85}'
    ||| c == '\u{a0}'
    ||| c == '\u{1680}'
    ||| ('\u{2000}' <= c && c <= '\u{200a}')
    ||| c == '\u{2028}'
    ||| c == '\u{2029}'
    ||| c == '\u{202f}'
    ||| c == '\u{205f}'
    ||| c == '\u{3000}'
}

/// Whether a character has the `White_Space` property.
pub fn char_is_ws(c: char) -> (r: bool)
    ensures
        r == is_ws(c),
{
    ('\u{9}' <= c && c <= '\u{d}') || c == ' ' || c == '\u{85}' || c == '\u{a0}' || c
        == '\u{1680}' || ('\u{2000}' <= c && c <= '\u{200a}') || c == '\u{2028}' || c
        == '\u{2029}' || c == '\u{202f}' || c == '\u{205f}' || c == '\u{3000}'
}

/// `s` with leading whitespace removed.
pub open spec fn trim_start(s: Seq<char>) -> Seq<char>
    decreases s.len(),
{
    if s.len() > 0 && is_ws(s[0]) {
        trim_start(s.drop_first())
    } else {
        s
    }
}

/// `s` with trailing whitespace removed.
pub open spec fn trim_end(s: Seq<char>) -> Seq<char>
    decreases s.len(),
{
    if s.len() > 0 && is_ws(s.last()) {
        trim_end(s.drop_last())
    } else {
        s
    }
}

/// `s` with leading and trailing whitespace removed (as `str::trim`).
pub open spec fn trim(s: Seq<char>) -> Seq<char> {
    trim_end(trim_start(s))
}

/// Whitespace before a text that starts with none is trimmed away.
pub proof fn lemma_trim_start_padding(p: Seq<char>, x: Seq<char>)
    requires
        forall|i: int| 0 <= i < p.len() ==> is_ws(#[trigger] p[i]),
        x.len() > 0,
        !is_ws(x[0]),
    ensures
        trim_start(p + x) == x,
    decreases p.len(),
{
    if p.len() == 0 {
        assert(p + x =~= x);
    } else {
        assert((p + x)[0] == p[0]);
        assert((p + x).drop_first() =~= p.drop_first() + x);
        lemma_trim_start_padding(p.drop_first(), x);
    }
}

/// Whitespace after a text that ends with none is trimmed away.
pub proof fn lemma_trim_end_padding(x: Seq<char>, q: Seq<char>)
    requires
        forall|i: int| 0 <= i < q.len() ==> is_ws(#[trigger] q[i]),
        x.len() > 0,
        !is_ws(x.last()),
    ensures
        trim_end(x + q) == x,
    decreases q.len(),
{
    if q.len() == 0 {
        assert(x + q =~= x);
    } else {
        assert((x + q).last() == q.last());
        assert((x + q).drop_last() =~= x + q.drop_last());
        lemma_trim_end_padding(x, q.drop_last());
    }
}

/// Trimming a text padded with whitespace gives the text back, when it
/// has no whitespace at either end.
pub proof fn lemma_trim_padding(p: Seq<char>, x: Seq<char>, q: Seq<char>)
    requires
        forall|i: int| 0 <= i < p.len() ==> is_ws(#[trigger] p[i]),
        forall|i: int| 0 <= i < q.len() ==> is_ws(#[trigger] q[i]),
        x.len() > 0,
        !is_ws(x[0]),
        !is_ws(x.last()),
    ensures
        trim(p + x + q) == x,
        trim(x) == x,
{
    assert((x + q)[0] == x[0]);
    assert(p + x + q =~= p + (x + q));
    lemma_trim_start_padding(p, x + q);
    lemma_trim_end_padding(x, q);
    lemma_trim_start_padding(Seq::empty(), x);
    assert(Seq::<char>::empty() + x =~= x);
    lemma_trim_end_padding(x, Seq::empty());
    assert(x + Seq::<char>::empty() =~= x);
}

/// Removes leading and trailing whitespace.
pub fn trim_chars(v: &[char]) -> (r: Vec<char>)
    ensures
        r@ == trim(v@),
{
    let n: usize = v.len();
    let mut a: usize = 0;
    assert(v@.subrange(0, n as int) == v@);
    while a < n && char_is_ws(v[a])
        invariant
            n == v@.len(),
            a <= n,
            trim_start(v@) == trim_start(v@.subrange(a as int, n as int)),
        decreases n - a,
    {
        assert(v@.subrange(a as int, n as int).drop_first() == v@.subrange(a + 1, n as int));
        a = a + 1;
    }
    assert(trim_start(v@.subrange(a as int, n as int)) == v@.subrange(a as int, n as int));
    let mut b: usize = n;
    while b > a && char_is_ws(v[b - 1])
        invariant
            a <= b <= n,
            n == v@.len(),
            trim(v@) == trim_end(v@.subrange(a as int, b as int)),
        decreases b - a,
    {
        assert(v@.subrange(a as int, b as int).drop_last() == v@.subrange(a as int, b - 1));
        b = b - 1;
    }
    sub_chars(v, a, b)
}

/// Trims a string slice into a character vector.
pub fn trim_str(s: &str) -> (r: Vec<char>)
    ensures
        r@ == trim(s@),
{
    let v = str_to_chars(s);
    trim_chars(v.as_slice())
}

// ---------------------------------------------------------------------
// Searching and splitting
// ---------------------------------------------------------------------

/// `i` is the first position of `c` in `s`.
pub open spec fn is_first_index(s: Seq<char>, c: char, i: int) -> bool {
    &&& 0 <= i < s.len()
    &&& s[i] == c
    &&& forall|j: int| 0 <= j < i ==> s[j] != c
}

/// The first position of `c` in `s`, if any.
pub open spec fn first_index(s: Seq<char>, c: char) -> Option<int> {
    if exists|i: int| is_first_index(s, c, i) {
        Some(choose|i: int| is_first_index(s, c, i))
    } else {
        None
    }
}

/// A first position, when one exists, is unique.
pub proof fn lemma_first_index_unique(s: Seq<char>, c: char, i: int)
    requires
        is_first_index(s, c, i),
    ensures
        first_index(s, c) == Some(i),
{
    let k = choose|k: int| is_first_index(s, c, k);
    assert(is_first_index(s, c, k));
    if k < i {
        assert(s[k] != c);
    }
    if i < k {
        assert(s[i] != c);
    }
}

/// Without `c` in `s` there is no first position.
pub proof fn lemma_first_index_none(s: Seq<char>, c: char)
    requires
        forall|j: int| 0 <= j < s.len() ==> s[j] != c,
    ensures
        first_index(s, c) is None,
{
    if exists|i: int| is_first_index(s, c, i) {
        let k = choose|k: int| is_first_index(s, c, k);
        assert(s[k] == c);
    }
}

/// Finds the first position of `c`.
pub fn find_char(v: &[char], c: char) -> (r: Option<usize>)
    ensures
        match r {
            Some(i) => first_index(v@, c) == Some(i as int) && is_first_index(v@, c, i as int),
            None => first_index(v@, c) is None,
        },
        r is None <==> !v@.contains(c),
{
    let mut i: usize = 0;
    while i < v.len()
        invariant
            i <= v@.len(),
            forall|j: int| 0 <= j < i ==> v@[j] != c,
        decreases v@.len() - i,
    {
        if v[i] == c {
            proof {
                lemma_first_index_unique(v@, c, i as int);
            }
            return Some(i);
        }
        i = i + 1;
    }
    proof {
        lemma_first_index_none(v@, c);
    }
    None
}

/// The pieces of `s` between occurrences of `sep` (as `str::split` with a
/// character pattern): always at least one piece.
pub open spec fn split(s: Seq<char>, sep: char) -> Seq<Seq<char>>
    decreases s.len(),
{
    if s.len() == 0 {
        seq![Seq::<char>::empty()]
    } else {
        let p = split(s.drop_last(), sep);
        if s.last() == sep {
            p.push(Seq::<char>::empty())
        } else {
            p.update(p.len() - 1, p.last().push(s.last()))
        }
    }
}

/// `split` always yields at least one piece.
pub proof fn lemma_split_nonempty(s: Seq<char>, sep: char)
    ensures
        split(s, sep).len() >= 1,
    decreases s.len(),
{
    if s.len() > 0 {
        lemma_split_nonempty(s.drop_last(), sep);
    }
}

/// Splits a character sequence at every occurrence of `sep`.
pub fn split_chars(v: &[char], sep: char) -> (r: Vec<Vec<char>>)
    ensures
        r@.len() == split(v@, sep).len(),
        forall|i: int| 0 <= i < r@.len() ==> #[trigger] r@[i]@ == split(v@, sep)[i],
{
    let mut pieces: Vec<Vec<char>> = Vec::new();
    let mut cur: Vec<char> = Vec::new();
    let mut i: usize = 0;
    while i < v.len()
        invariant
            i <= v@.len(),
            pieces@.len() + 1 == split(v@.subrange(0, i as int), sep).len(),
            forall|k: int|
                0 <= k < pieces@.len() ==> #[trigger] pieces@[k]@ == split(
                    v@.subrange(0, i as int),
                    sep,
                )[k],
            cur@ == split(v@.subrange(0, i as int), sep).last(),
        decreases v@.len() - i,
    {
        let ghost pre = v@.subrange(0, i as int);
        let ghost post = v@.subrange(0, i + 1);
        assert(post.drop_last() == pre);
        assert(post.last() == v@[i as int]);
        proof {
            lemma_split_nonempty(pre, sep);
        }
        if v[i] == sep {
            let done = cur;
            pieces.push(done);
            cur = Vec::new();
        } else {
            cur.push(v[i]);
        }
        i = i + 1;
    }
    assert(v@.subrange(0, v@.len() as int) == v@);
    pieces.push(cur);
    pieces
}

/// The maximal runs of non-whitespace characters of `s`, in order (as
/// `str::split_whitespace`).
pub open spec fn words(s: Seq<char>) -> Seq<Seq<char>>
    decreases s.len(),
{
    if s.len() == 0 {
        Seq::empty()
    } else {
        let p = words(s.drop_last());
        if is_ws(s.last()) {
            p
        } else if s.len() >= 2 && !is_ws(s[s.len() - 2]) {
            p.update(p.len() - 1, p.last().push(s.last()))
        } else {
            p.push(seq![s.last()])
        }
    }
}

proof fn lemma_words_nonempty(s: Seq<char>)
    requires
        s.len() > 0,
        !is_ws(s.last()),
    ensures
        words(s).len() > 0,
    decreases s.len(),
{
    if s.len() >= 2 && !is_ws(s[s.len() - 2]) {
        lemma_words_nonempty(s.drop_last());
    }
}

/// Splits at whitespace, dropping empty pieces.
pub fn split_whitespace_chars(v: &[char]) -> (r: Vec<Vec<char>>)
    ensures
        r@.len() == words(v@).len(),
        forall|i: int| 0 <= i < r@.len() ==> #[trigger] r@[i]@ == words(v@)[i],
{
    let mut pieces: Vec<Vec<char>> = Vec::new();
    let n: usize = v.len();
    let mut i: usize = 0;
    while i < n
        invariant
            i <= n,
            n == v@.len(),
            pieces@.len() == words(v@.subrange(0, i as int)).len(),
            forall|k: int|
                0 <= k < pieces@.len() ==> #[trigger] pieces@[k]@ == words(
                    v@.subrange(0, i as int),
                )[k],
        decreases n - i,
    {
        let ghost pre = v@.subrange(0, i as int);
        let ghost post = v@.subrange(0, i + 1);
        assert(post.drop_last() == pre);
        assert(post.last() == v@[i as int]);
        let c = v[i];
        if char_is_ws(c) {
        } else if i >= 1 && !char_is_ws(v[i - 1]) {
            assert(post[post.len() - 2] == v@[i - 1]);
            assert(pre.last() == v@[i - 1]);
            proof {
                lemma_words_nonempty(pre);
            }
            let mut last = pieces.pop().unwrap();
            last.push(c);
            pieces.push(last);
        } else {
            if i >= 1 {
                assert(post[post.len() - 2] == v@[i - 1]);
            }
            let mut w: Vec<char> = Vec::new();
            w.push(c);
            assert(w@ =~= seq![c]);
            pieces.push(w);
        }
        i = i + 1;
    }
    assert(v@.subrange(0, n as int) == v@);
    pieces
}

/// `h` contains `n` as a contiguous piece.
pub open spec fn contains_seq(h: Seq<char>, n: Seq<char>) -> bool {
    exists|i: int| 0 <= i && i + n.len() <= h.len() && #[trigger] h.subrange(i, i + n.len()) == n
}

/// Whether `h` contains `n` as a contiguous piece.
pub fn contains_chars(h: &[char], n: &[char]) -> (r: bool)
    ensures
        r == contains_seq(h@, n@),
{
    if n.len() > h.len() {
        return false;
    }
    let mut i: usize = 0;
    let hl: usize = h.len();
    while i <= hl - n.len()
        invariant
            hl == h@.len(),
            n@.len() <= h@.len(),
            i <= h@.len() - n@.len() + 1,
            forall|k: int| 0 <= k < i ==> #[trigger] h@.subrange(k, k + n@.len()) != n@,
        decreases h@.len() - i,
    {
        let mut j: usize = 0;
        let mut ok: bool = true;
        while j < n.len()
            invariant
                hl == h@.len(),
                i + n@.len() <= h@.len(),
                j <= n@.len(),
                ok == (forall|t: int| 0 <= t < j ==> h@[i + t] == n@[t]),
            decreases n@.len() - j,
        {
            assert(i + j < h@.len());
            if h[i + j] != n[j] {
                assert(h@[i + j] != n@[j as int]);
                ok = false;
            }
            j = j + 1;
        }
        if ok {
            assert(h@.subrange(i as int, i + n@.len()) =~= n@);
            return true;
        } else {
            assert(h@.subrange(i as int, i + n@.len()) != n@) by {
                let t = choose|t: int| 0 <= t < n@.len() && h@[i + t] != n@[t];
                assert(h@.subrange(i as int, i + n@.len())[t] == h@[i + t]);
            }
        }
        i = i + 1;
    }
    assert forall|k: int|
        0 <= k && k + n@.len() <= h@.len() implies #[trigger] h@.subrange(k, k + n@.len())
        != n@ by {
        assert(k < i);
    }
    false
}

/// `p` is a prefix of `s`.
pub open spec fn has_prefix(s: Seq<char>, p: Seq<char>) -> bool {
    p.len() <= s.len() && s.subrange(0, p.len() as int) == p
}

/// Whether `p` is a prefix of `v`.
pub fn starts_with_str(v: &[char], p: &str) -> (r: bool)
    ensures
        r == has_prefix(v@, p@),
{
    let pv = str_to_chars(p);
    if pv.len() > v.len() {
        return false;
    }
    let head = sub_chars(v, 0, pv.len());
    chars_eq(head.as_slice(), pv.as_slice())
}

/// Removes a prefix, as `str::strip_prefix`.
pub fn strip_prefix_str(v: &[char], p: &str) -> (r: Option<Vec<char>>)
    ensures
        match r {
            Some(rest) => has_prefix(v@, p@) && rest@ == v@.subrange(p@.len() as int, v@.len() as int),
            None => !has_prefix(v@, p@),
        },
{
    if starts_with_str(v, p) {
        let n: usize = p.unicode_len();
        Some(sub_chars(v, n, v.len()))
    } else {
        None
    }
}

// ---------------------------------------------------------------------
// Numbers: parsing
// ---------------------------------------------------------------------

/// The value of a digit character in the given radix (as `char::to_digit`).
pub open spec fn digit_val(c: char, radix: nat) -> Option<nat> {
    if '0' <= c && c <= '9' && (c as nat) - 48 < radix {
        Some((c as nat - 48) as nat)
    } else if 'a' <= c && c <= 'z' && (c as nat) - 87 < radix {
        Some((c as nat - 87) as nat)
    } else if 'A' <= c && c <= 'Z' && (c as nat) - 55 < radix {
        Some((c as nat - 55) as nat)
    } else {
        None
    }
}

/// Every character of `s` is a digit in the radix.
pub open spec fn all_digits(s: Seq<char>, radix: nat) -> bool {
    forall|i: int| 0 <= i < s.len() ==> #[trigger] digit_val(s[i], radix) is Some
}

/// The number that the digits `s` denote.
pub open spec fn digits_value(s: Seq<char>, radix: nat) -> nat
    decreases s.len(),
{
    if s.len() == 0 {
        0
    } else {
        digits_value(s.drop_last(), radix) * radix + digit_val(s.last(), radix).unwrap()
    }
}

/// The number that `s` denotes as an unsigned integer literal accepted by
/// Rust's `from_str_radix` for unsigned types: an optional `+`, then at
/// least one digit. Bounds are applied by the caller.
pub open spec fn parse_uint(s: Seq<char>, radix: nat) -> Option<nat> {
    let d = if s.len() > 0 && s[0] == '+' {
        s.drop_first()
    } else {
        s
    };
    if d.len() > 0 && all_digits(d, radix) {
        Some(digits_value(d, radix))
    } else {
        None
    }
}

/// `parse_uint` restricted to values not above `max`.
pub open spec fn parse_uint_max(s: Seq<char>, radix: nat, max: nat) -> Option<nat> {
    match parse_uint(s, radix) {
        Some(n) => if n <= max {
            Some(n)
        } else {
            None
        },
        None => None,
    }
}

proof fn lemma_digits_value_prefix(s: Seq<char>, k: int, radix: nat)
    requires
        0 <= k <= s.len(),
        radix >= 1,
        all_digits(s, radix),
    ensures
        digits_value(s.subrange(0, k), radix) <= digits_value(s, radix),
    decreases s.len() - k,
{
    if k < s.len() {
        let t = s.subrange(0, k + 1);
        assert(t.drop_last() == s.subrange(0, k));
        assert(digit_val(t.last(), radix) is Some);
        let a = digits_value(s.subrange(0, k), radix);
        assert(a * radix >= a) by (nonlinear_arith)
            requires
                radix >= 1,
        ;
        lemma_digits_value_prefix(s, k + 1, radix);
    } else {
        assert(s.subrange(0, k) == s);
    }
}

/// Value of a digit character, as `char::to_digit`.
pub fn char_digit(c: char, radix: u32) -> (r: Option<u32>)
    requires
        2 <= radix <= 36,
    ensures
        match r {
            Some(d) => digit_val(c, radix as nat) == Some(d as nat),
            None => digit_val(c, radix as nat) is None,
        },
{
    let n: u32 = c as u32;
    if '0' <= c && c <= '9' && n - 48 < radix {
        Some(n - 48)
    } else if 'a' <= c && c <= 'z' && n - 87 < radix {
        Some(n - 87)
    } else if 'A' <= c && c <= 'Z' && n - 55 < radix {
        Some(n - 55)
    } else {
        None
    }
}

/// Parses an unsigned integer in the given radix, refusing values above
/// `max` (as `from_str_radix` for an unsigned type whose maximum is `max`).
pub fn parse_uint_chars(v: &[char], radix: u32, max: u64) -> (r: Option<u64>)
    requires
        2 <= radix <= 36,
    ensures
        match r {
            Some(n) => parse_uint_max(v@, radix as nat, max as nat) == Some(n as nat),
            None => parse_uint_max(v@, radix as nat, max as nat) is None,
        },
{
    let start: usize = if v.len() > 0 && v[0] == '+' {
        1
    } else {
        0
    };
    let ghost d = if v@.len() > 0 && v@[0] == '+' {
        v@.drop_first()
    } else {
        v@
    };
    assert(d == v@.subrange(start as int, v@.len() as int));
    if start >= v.len() {
        return None;
    }
    let mut acc: u64 = 0;
    let mut i: usize = start;
    while i < v.len()
        invariant
            start <= i <= v@.len(),
            d == v@.subrange(start as int, v@.len() as int),
            d == (if v@.len() > 0 && v@[0] == '+' {
                v@.drop_first()
            } else {
                v@
            }),
            all_digits(v@.subrange(start as int, i as int), radix as nat),
            acc as nat == digits_value(v@.subrange(start as int, i as int), radix as nat),
            acc <= max,
            2 <= radix <= 36,
        decreases v@.len() - i,
    {
        let ghost pre = v@.subrange(start as int, i as int);
        let ghost nxt = v@.subrange(start as int, i + 1);
        assert(nxt.drop_last() == pre);
        assert(nxt.last() == v@[i as int]);
        match char_digit(v[i], radix) {
            None => {
                proof {
                    assert(d[i - start] == v@[i as int]);
                    assert(digit_val(d[i - start], radix as nat) is None);
                    assert(!all_digits(d, radix as nat));
                    assert(parse_uint(v@, radix as nat) is None);
                }
                return None;
            },
            Some(dg) => {
                assert((acc as u128) * (radix as u128) <= 0xffff_ffff_ffff_ffffu128 * 36)
                    by (nonlinear_arith)
                    requires
                        acc <= 0xffff_ffff_ffff_ffffu64,
                        radix <= 36,
                ;
                let next: u128 = (acc as u128) * (radix as u128) + (dg as u128);
                assert(next == digits_value(nxt, radix as nat));
                assert(all_digits(nxt, radix as nat)) by {
                    assert forall|t: int| 0 <= t < nxt.len() implies #[trigger] digit_val(
                        nxt[t],
                        radix as nat,
                    ) is Some by {
                        if t < pre.len() {
                            assert(nxt[t] == pre[t]);
                        }
                    }
                }
                if next > max as u128 {
                    proof {
                        if all_digits(d, radix as nat) {
                            assert(nxt == d.subrange(0, i + 1 - start));
                            lemma_digits_value_prefix(d, i + 1 - start, radix as nat);
                        }
                        assert(parse_uint_max(v@, radix as nat, max as nat) is None);
                    }
                    return None;
                }
                acc = next as u64;
            },
        }
        i = i + 1;
    }
    Some(acc)
}

/// Parses a decimal `u32` (as `str::parse::<u32>`).
pub fn parse_u32_chars(v: &[char]) -> (r: Option<u32>)
    ensures
        match r {
            Some(n) => parse_uint_max(v@, 10, u32::MAX as nat) == Some(n as nat),
            None => parse_uint_max(v@, 10, u32::MAX as nat) is None,
        },
{
    match parse_uint_chars(v, 10, 0xffff_ffff) {
        Some(n) => Some(n as u32),
        None => None,
    }
}

// ---------------------------------------------------------------------
// Numbers: formatting
// ---------------------------------------------------------------------

/// The character of a digit value below sixteen (lower-case hexadecimal).
pub open spec fn digit_char(d: nat) -> char {
    if d < 10 {
        ((d + 48) as u8) as char
    } else {
        ((d + 87) as u8) as char
    }
}

/// Decimal notation of `n`, without leading zeros (as `{}` formats).
pub open spec fn fmt_dec(n: nat) -> Seq<char>
    decreases n,
{
    if n < 10 {
        seq![digit_char(n)]
    } else {
        fmt_dec(n / 10).push(digit_char(n % 10))
    }
}

/// Lower-case hexadecimal notation of `n`, without leading zeros (as `{:x}`).
pub open spec fn fmt_hex(n: nat) -> Seq<char>
    decreases n,
{
    if n < 16 {
        seq![digit_char(n)]
    } else {
        fmt_hex(n / 16).push(digit_char(n % 16))
    }
}

/// A digit of lower-case hexadecimal notation.
pub open spec fn hex_digit_char(c: char) -> bool {
    ('0' <= c && c <= '9') || ('a' <= c && c <= 'f')
}

/// The digit of a value below sixteen reads back as that value.
proof fn lemma_digit_char_val(d: nat)
    requires
        d < 16,
    ensures
        digit_val(digit_char(d), 16) == Some(d),
        hex_digit_char(digit_char(d)),
        d > 0 ==> digit_char(d) != '0',
{
}

/// Hexadecimal notation is made of hexadecimal digits, has no leading
/// zero, and reads back as the number it writes.
pub proof fn lemma_fmt_hex_digits(n: nat)
    ensures
        fmt_hex(n).len() > 0,
        forall|i: int| 0 <= i < fmt_hex(n).len() ==> hex_digit_char(#[trigger] fmt_hex(n)[i]),
        n >= 16 ==> fmt_hex(n)[0] != '0',
        all_digits(fmt_hex(n), 16),
        digits_value(fmt_hex(n), 16) == n,
    decreases n,
{
    lemma_digit_char_val(n % 16);
    if n < 16 {
        let s = fmt_hex(n);
        assert(s.drop_last() =~= Seq::<char>::empty());
        assert(digits_value(Seq::<char>::empty(), 16) == 0);
        assert(s.last() == digit_char(n));
    } else {
        lemma_fmt_hex_digits(n / 16);
        lemma_digit_char_val(n / 16 % 16);
        let s = fmt_hex(n / 16);
        let t = fmt_hex(n);
        assert(t == s.push(digit_char(n % 16)));
        assert(t.drop_last() =~= s);
        assert(t[0] == s[0]);
        if n / 16 < 16 {
            assert(n / 16 > 0);
            lemma_digit_char_val(n / 16);
        }
        assert(forall|i: int| 0 <= i < s.len() ==> #[trigger] t[i] == s[i]);
        assert forall|i: int| 0 <= i < t.len() implies hex_digit_char(#[trigger] t[i]) && digit_val(t[i], 16) is Some by {
            if i < s.len() {
                assert(t[i] == s[i]);
                assert(digit_val(s[i], 16) is Some);
            }
        }
        assert(digits_value(t, 16) == digits_value(s, 16) * 16 + digit_val(digit_char(n % 16), 16).unwrap());
        assert((n / 16) * 16 + n % 16 == n);
    }
}

/// `s` padded on the left with `c` up to `width` characters.
pub open spec fn pad_left(s: Seq<char>, width: nat, c: char) -> Seq<char> {
    if s.len() >= width {
        s
    } else {
        Seq::new((width - s.len()) as nat, |i: int| c) + s
    }
}

/// `s` padded on the right with spaces up to `width` characters.
pub open spec fn pad_right(s: Seq<char>, width: nat) -> Seq<char> {
    if s.len() >= width {
        s
    } else {
        s + Seq::new((width - s.len()) as nat, |i: int| ' ')
    }
}

fn digit_to_char(d: u64) -> (c: char)
    requires
        d < 16,
    ensures
        c == digit_char(d as nat),
{
    if d < 10 {
        ((d + 48) as u8) as char
    } else {
        ((d + 87) as u8) as char
    }
}

/// Decimal digits of `n`.
pub fn dec_chars(n: u64) -> (r: Vec<char>)
    ensures
        r@ == fmt_dec(n as nat),
    decreases n,
{
    if n < 10 {
        let mut r: Vec<char> = Vec::new();
        r.push(digit_to_char(n));
        assert(r@ == seq![digit_char(n as nat)]);
        r
    } else {
        let mut r = dec_chars(n / 10);
        r.push(digit_to_char(n % 10));
        r
    }
}

/// Lower-case hexadecimal digits of `n`.
pub fn hex_chars(n: u64) -> (r: Vec<char>)
    ensures
        r@ == fmt_hex(n as nat),
    decreases n,
{
    if n < 16 {
        let mut r: Vec<char> = Vec::new();
        r.push(digit_to_char(n));
        assert(r@ == seq![digit_char(n as nat)]);
        r
    } else {
        let mut r = hex_chars(n / 16);
        r.push(digit_to_char(n % 16));
        r
    }
}

/// Pads `v` on the left with `c` up to `width` characters.
pub fn pad_left_chars(v: &[char], width: usize, c: char) -> (r: Vec<char>)
    ensures
        r@ == pad_left(v@, width as nat, c),
{
    let mut r: Vec<char> = Vec::new();
    if v.len() < width {
        let k: usize = width - v.len();
        let mut i: usize = 0;
        while i < k
            invariant
                i <= k,
                r@ == Seq::new(i as nat, |j: int| c),
            decreases k - i,
        {
            r.push(c);
            i = i + 1;
            assert(r@ =~= Seq::new(i as nat, |j: int| c));
        }
    }
    let ghost pre = r@;
    push_all(&mut r, v);
    assert(r@ =~= pad_left(v@, width as nat, c));
    r
}

/// Pads `v` on the right with spaces up to `width` characters.
pub fn pad_right_chars(v: &[char], width: usize) -> (r: Vec<char>)
    ensures
        r@ == pad_right(v@, width as nat),
{
    let mut r: Vec<char> = Vec::new();
    push_all(&mut r, v);
    if v.len() < width {
        let k: usize = width - v.len();
        let mut i: usize = 0;
        while i < k
            invariant
                i <= k,
                k == width - v@.len(),
                r@ == v@ + Seq::new(i as nat, |j: int| ' '),
            decreases k - i,
        {
            r.push(' ');
            i = i + 1;
            assert(r@ =~= v@ + Seq::new(i as nat, |j: int| ' '));
        }
    }
    assert(r@ =~= pad_right(v@, width as nat));
    r
}

// ---------------------------------------------------------------------
// Case conversion
// ---------------------------------------------------------------------

/// The lower-case form of `s` as `str::to_lowercase` computes it (Unicode
/// `Lowercase` mapping).
pub uninterp spec fn lowercase(s: Seq<char>) -> Seq<char>;

/// ASCII lower-casing of one character.
pub open spec fn ascii_lower(c: char) -> char {
    if 'A' <= c && c <= 'Z' {
        ((c as u32) + 32) as char
    } else {
        c
    }
}

/// All characters of `s` are ASCII.
pub open spec fn is_ascii_seq(s: Seq<char>) -> bool {
    forall|i: int| 0 <= i < s.len() ==> (#[trigger] s[i] as u32) < 128
}

/// Lower-cases a string slice (`str::to_lowercase`). The result is the named
/// Unicode mapping of the input; on an all-ASCII input it is the
/// character-by-character ASCII lower-casing. Nothing more is stated of the
/// non-ASCII mapping.
#[verifier::external_body]
pub(crate) fn str_to_lowercase(s: &str) -> (r: String)
    ensures
        r@ == lowercase(s@),
        is_ascii_seq(s@) ==> r@ == s@.map_values(|c: char| ascii_lower(c)),
{
    s.to_lowercase()
}

/// Each letter of `s` lowered, as ASCII lower-casing does.
pub open spec fn lower_all(s: Seq<char>) -> Seq<char> {
    s.map_values(|c: char| ascii_lower(c))
}

/// Lowering a concatenation lowers each part.
pub proof fn lemma_lower_all_add(a: Seq<char>, b: Seq<char>)
    ensures
        lower_all(a + b) == lower_all(a) + lower_all(b),
{
    assert(lower_all(a + b) =~= lower_all(a) + lower_all(b));
}

/// The lower-case form of `s`: on ASCII text, each letter lowered in
/// place; otherwise the Unicode mapping.
pub open spec fn to_lower(s: Seq<char>) -> Seq<char> {
    if is_ascii_seq(s) {
        lower_all(s)
    } else {
        lowercase(s)
    }
}

/// A character of a plain lower-case name: a letter, a digit or `-`.
pub open spec fn name_char(c: char) -> bool {
    ('a' <= c && c <= 'z') || ('0' <= c && c <= '9') || c == '-'
}

/// Names of lower-case letters, digits and dashes are their own lower case.
pub proof fn lemma_lower_fixed(n: Seq<char>)
    requires
        forall|i: int| 0 <= i < n.len() ==> name_char(#[trigger] n[i]),
    ensures
        lower_all(n) == n,
{
    assert(lower_all(n) =~= n) by {
        assert forall|i: int| 0 <= i < n.len() implies lower_all(n)[i] == n[i] by {
            assert(name_char(n[i]));
        }
    }
}

/// A non-empty name of lower-case letters, digits and dashes has nothing
/// to trim, is its own lower case, and holds no colon.
pub proof fn lemma_plain_text(n: Seq<char>)
    requires
        n.len() > 0,
        forall|i: int| 0 <= i < n.len() ==> name_char(#[trigger] n[i]),
    ensures
        trim(n) == n,
        is_ascii_seq(n),
        to_lower(n) == n,
        first_index(n, ':') is None,
{
    assert(!is_ws(n[0]));
    assert(!is_ws(n.last()));
    assert(trim_start(n) == n);
    assert(trim_end(n) == n);
    assert(is_ascii_seq(n)) by {
        assert forall|i: int| 0 <= i < n.len() implies (#[trigger] n[i] as u32) < 128 by {
            assert(name_char(n[i]));
        }
    }
    lemma_lower_fixed(n);
    lemma_first_index_none(n, ':');
}

/// Lower-cases a character sequence.
pub fn lowercase_chars(v: &[char]) -> (r: Vec<char>)
    ensures
        r@ == lowercase(v@),
        r@ == to_lower(v@),
        is_ascii_seq(v@) ==> r@ == v@.map_values(|c: char| ascii_lower(c)),
{
    let s = chars_to_string(v);
    let l = str_to_lowercase(s.as_str());
    str_to_chars(l.as_str())
}

} // verus!
