//! CPU list parsing and validation.
//!
//! Lists are written like `0-2,5,7-9`; the result is the set of CPU IDs,
//! sorted and without repetition.

use vstd::prelude::*;
use crate::error::PerfError;
use crate::text::{
    all_digits, chars_to_string, dec_chars, digits_value, find_char, fmt_dec, parse_uint_chars,
    parse_uint_max, push_all, push_str, split, split_chars, str_to_chars, trim, trim_chars,
};

verus! {

/// The elements of `s` increase strictly.
pub open spec fn strictly_sorted(s: Seq<u32>) -> bool {
    forall|i: int, j: int| 0 <= i < j < s.len() ==> s[i] < s[j]
}

/// The CPU number that a text denotes, as `str::parse::<u32>`.
pub open spec fn cpu_number(s: Seq<char>) -> Option<u32> {
    match parse_uint_max(s, 10, u32::MAX as nat) {
        Some(n) => Some(n as u32),
        None => None,
    }
}

/// The CPUs `start..=end`.
pub open spec fn cpu_range(start: u32, end: u32) -> Set<u32> {
    Set::new(|c: u32| start <= c && c <= end)
}

/// The CPUs that one comma-separated part of a CPU list denotes, or the
/// message that refuses it.
pub open spec fn cpu_part_spec(part: Seq<char>) -> Result<Set<u32>, Seq<char>> {
    let p = trim(part);
    if p.len() == 0 {
        Err("empty CPU identifier in list"@)
    } else if p.contains('-') {
        let rp = split(p, '-');
        if rp.len() != 2 {
            Err("invalid range format: '"@ + p + "'"@)
        } else {
            match cpu_number(trim(rp[0])) {
                None => Err("invalid CPU number in range: '"@ + rp[0] + "'"@),
                Some(start) => match cpu_number(trim(rp[1])) {
                    None => Err("invalid CPU number in range: '"@ + rp[1] + "'"@),
                    Some(end) => if start > end {
                        Err("invalid range: start ("@ + fmt_dec(start as nat) + ") > end ("@
                            + fmt_dec(end as nat) + ")"@)
                    } else {
                        Ok(cpu_range(start, end))
                    },
                },
            }
        }
    } else {
        match cpu_number(p) {
            None => Err("invalid CPU number: '"@ + p + "'"@),
            Some(c) => Ok(set![c]),
        }
    }
}

/// The CPUs that a sequence of parts denotes; the first refused part
/// refuses all.
pub open spec fn cpu_parts_spec(parts: Seq<Seq<char>>) -> Result<Set<u32>, Seq<char>>
    decreases parts.len(),
{
    if parts.len() == 0 {
        Ok(Set::empty())
    } else {
        match cpu_parts_spec(parts.drop_last()) {
            Err(m) => Err(m),
            Ok(prev) => match cpu_part_spec(parts.last()) {
                Err(m) => Err(m),
                Ok(s) => Ok(prev.union(s)),
            },
        }
    }
}

/// The CPUs that a CPU list denotes, or the message that refuses it.
pub open spec fn cpu_list_spec(input: Seq<char>) -> Result<Set<u32>, Seq<char>> {
    let t = trim(input);
    if t.len() == 0 {
        Err("empty CPU list"@)
    } else {
        cpu_parts_spec(split(t, ','))
    }
}

/// Inserts `x` into a strictly sorted vector, keeping it strictly sorted.
pub fn insert_sorted(v: &mut Vec<u32>, x: u32)
    requires
        strictly_sorted(old(v)@),
    ensures
        strictly_sorted(final(v)@),
        final(v)@.to_set() == old(v)@.to_set().insert(x),
{
    let mut i: usize = 0;
    while i < v.len() && v[i] < x
        invariant
            i <= v@.len(),
            strictly_sorted(v@),
            forall|j: int| 0 <= j < i ==> v@[j] < x,
        decreases v@.len() - i,
    {
        i = i + 1;
    }
    if i < v.len() && v[i] == x {
        assert(v@.to_set().insert(x) =~= v@.to_set()) by {
            assert(v@[i as int] == x);
            assert(v@.contains(x));
        }
        return;
    }
    let ghost old_v = v@;
    v.insert(i, x);
    assert(strictly_sorted(v@)) by {
        assert forall|a: int, b: int| 0 <= a < b < v@.len() implies v@[a] < v@[b] by {
            if b < i {
                assert(v@[a] == old_v[a] && v@[b] == old_v[b]);
            } else if b == i {
                assert(v@[a] == old_v[a]);
            } else if a == i {
                assert(v@[b] == old_v[b - 1]);
                assert(old_v[b - 1] >= x);
                assert(old_v[b - 1] != x || b - 1 == i as int);
            } else if a < i {
                assert(v@[a] == old_v[a] && v@[b] == old_v[b - 1]);
            } else {
                assert(v@[a] == old_v[a - 1] && v@[b] == old_v[b - 1]);
            }
        }
    }
    assert(v@.to_set() =~= old_v.to_set().insert(x)) by {
        assert forall|y: u32| v@.to_set().contains(y) implies old_v.to_set().insert(x).contains(
            y,
        ) by {
            let k = choose|k: int| 0 <= k < v@.len() && v@[k] == y;
            if k < i {
                assert(old_v[k] == y);
            } else if k > i {
                assert(old_v[k - 1] == y);
            }
        }
        assert forall|y: u32| old_v.to_set().insert(x).contains(y) implies v@.to_set().contains(
            y,
        ) by {
            if y == x {
                assert(v@[i as int] == x);
            } else {
                let k = choose|k: int| 0 <= k < old_v.len() && old_v[k] == y;
                if k < i {
                    assert(v@[k] == y);
                } else {
                    assert(v@[k + 1] == y);
                }
            }
        }
    }
}

/// Inserts the CPUs `start..=end` into a strictly sorted vector.
fn insert_range(v: &mut Vec<u32>, start: u32, end: u32)
    requires
        strictly_sorted(old(v)@),
        start <= end,
    ensures
        strictly_sorted(final(v)@),
        final(v)@.to_set() == old(v)@.to_set().union(cpu_range(start, end)),
{
    let mut c: u32 = start;
    let ghost s0 = v@.to_set();
    loop
        invariant
            strictly_sorted(v@),
            start <= c <= end,
            s0 == old(v)@.to_set(),
            v@.to_set() == s0.union(Set::new(|x: u32| start <= x && x < c)),
        decreases end - c,
    {
        insert_sorted(v, c);
        assert(v@.to_set() =~= s0.union(Set::new(|x: u32| start <= x && x <= c)));
        if c == end {
            assert(cpu_range(start, end) =~= Set::new(|x: u32| start <= x && x <= c));
            return;
        }
        c = c + 1;
        assert(Set::new(|x: u32| start <= x && x < c) =~= Set::new(
            |x: u32| start <= x && x <= (c - 1) as u32,
        ));
    }
}

fn cpu_number_exec(s: &[char]) -> (r: Option<u32>)
    ensures
        r == cpu_number(s@),
{
    match parse_uint_chars(s, 10, 0xffff_ffff) {
        Some(n) => Some(n as u32),
        None => None,
    }
}

fn quoted(prefix: &str, body: &[char]) -> (r: String)
    ensures
        r@ == prefix@ + body@ + "'"@,
{
    let mut v = str_to_chars(prefix);
    push_all(&mut v, body);
    push_str(&mut v, "'");
    chars_to_string(v.as_slice())
}

fn cpu_list_error(message: String) -> (e: PerfError)
    ensures
        e == (PerfError::InvalidCpuList { message }),
{
    PerfError::InvalidCpuList { message }
}

/// Adds the CPUs of one part to the sorted set `v`.
fn add_cpu_part(v: &mut Vec<u32>, part: &[char]) -> (r: Result<(), PerfError>)
    requires
        strictly_sorted(old(v)@),
    ensures
        strictly_sorted(final(v)@),
        match r {
            Ok(()) => cpu_part_spec(part@) is Ok && final(v)@.to_set() == old(v)@.to_set().union(
                cpu_part_spec(part@)->Ok_0,
            ),
            Err(e) => e matches PerfError::InvalidCpuList { message } && cpu_part_spec(part@)
                == Err::<Set<u32>, Seq<char>>(message@),
        },
{
    let p = trim_chars(part);
    if p.len() == 0 {
        return Err(cpu_list_error(string_lit("empty CPU identifier in list")));
    }
    if find_char(p.as_slice(), '-').is_some() {
        let rp = split_chars(p.as_slice(), '-');
        if rp.len() != 2 {
            return Err(cpu_list_error(quoted("invalid range format: '", p.as_slice())));
        }
        let a = trim_chars(rp[0].as_slice());
        let start = match cpu_number_exec(a.as_slice()) {
            Some(s) => s,
            None => {
                return Err(cpu_list_error(quoted("invalid CPU number in range: '", rp[0].as_slice())));
            },
        };
        let b = trim_chars(rp[1].as_slice());
        let end = match cpu_number_exec(b.as_slice()) {
            Some(e) => e,
            None => {
                return Err(cpu_list_error(quoted("invalid CPU number in range: '", rp[1].as_slice())));
            },
        };
        if start > end {
            let mut m = str_to_chars("invalid range: start (");
            let ds = dec_chars(start as u64);
            push_all(&mut m, ds.as_slice());
            push_str(&mut m, ") > end (");
            let de = dec_chars(end as u64);
            push_all(&mut m, de.as_slice());
            push_str(&mut m, ")");
            return Err(cpu_list_error(chars_to_string(m.as_slice())));
        }
        insert_range(v, start, end);
        Ok(())
    } else {
        match cpu_number_exec(p.as_slice()) {
            None => Err(cpu_list_error(quoted("invalid CPU number: '", p.as_slice()))),
            Some(c) => {
                insert_sorted(v, c);
                assert(set![c] =~= Set::empty().insert(c));
                assert(old(v)@.to_set().insert(c) =~= old(v)@.to_set().union(set![c]));
                Ok(())
            },
        }
    }
}

fn string_lit(s: &str) -> (r: String)
    ensures
        r@ == s@,
{
    String::from_str(s)
}

/// Parses a CPU list such as `0-2,5,7-9` into its CPU IDs, sorted and
/// without repetition.
pub fn parse_cpu_list(input: &str) -> (r: Result<Vec<u32>, PerfError>)
    ensures
        match r {
            Ok(v) => strictly_sorted(v@) && cpu_list_spec(input@) == Ok::<Set<u32>, Seq<char>>(
                v@.to_set(),
            ),
            Err(e) => e matches PerfError::InvalidCpuList { message } && cpu_list_spec(input@)
                == Err::<Set<u32>, Seq<char>>(message@),
        },
{
    let t = trim_str(input);
    if t.len() == 0 {
        return Err(cpu_list_error(string_lit("empty CPU list")));
    }
    let parts = split_chars(t.as_slice(), ',');
    let ghost ps = split(t@, ',');
    let mut v: Vec<u32> = Vec::new();
    let mut i: usize = 0;
    assert(v@.to_set() =~= Set::<u32>::empty());
    while i < parts.len()
        invariant
            i <= parts@.len(),
            t@ == trim(input@),
            t@.len() > 0,
            ps == split(t@, ','),
            parts@.len() == ps.len(),
            forall|k: int| 0 <= k < parts@.len() ==> #[trigger] parts@[k]@ == ps[k],
            strictly_sorted(v@),
            cpu_parts_spec(ps.subrange(0, i as int)) == Ok::<Set<u32>, Seq<char>>(v@.to_set()),
        decreases parts@.len() - i,
    {
        assert(ps.subrange(0, i + 1).drop_last() == ps.subrange(0, i as int));
        assert(ps.subrange(0, i + 1).last() == parts@[i as int]@);
        match add_cpu_part(&mut v, parts[i].as_slice()) {
            Ok(()) => {},
            Err(e) => {
                proof {
                    let m = cpu_part_spec(parts@[i as int]@)->Err_0;
                    assert(cpu_parts_spec(ps.subrange(0, i + 1)) == Err::<Set<u32>, Seq<char>>(m));
                    lemma_cpu_parts_err_sticky(ps, i + 1);
                    assert(cpu_list_spec(input@) == Err::<Set<u32>, Seq<char>>(m));
                }
                return Err(e);
            },
        }
        i = i + 1;
    }
    assert(ps.subrange(0, ps.len() as int) == ps);
    Ok(v)
}

proof fn lemma_cpu_parts_err_sticky(ps: Seq<Seq<char>>, k: int)
    requires
        0 <= k <= ps.len(),
        cpu_parts_spec(ps.subrange(0, k)) is Err,
    ensures
        cpu_parts_spec(ps) == cpu_parts_spec(ps.subrange(0, k)),
    decreases ps.len() - k,
{
    if k < ps.len() {
        assert(ps.subrange(0, k + 1).drop_last() == ps.subrange(0, k));
        lemma_cpu_parts_err_sticky(ps, k + 1);
    } else {
        assert(ps.subrange(0, k) == ps);
    }
}

fn trim_str(s: &str) -> (r: Vec<char>)
    ensures
        r@ == trim(s@),
{
    let v = str_to_chars(s);
    trim_chars(v.as_slice())
}

/// The first position of a CPU above `max_cpu`, if any.
pub open spec fn first_out_of_range(cpus: Seq<u32>, max_cpu: u32, i: int) -> bool {
    0 <= i < cpus.len() && cpus[i] > max_cpu && forall|j: int| 0 <= j < i ==> cpus[j] <= max_cpu
}

/// Checks that no CPU ID exceeds `max_cpu`; the first one that does is
/// reported.
pub fn validate_cpu_ids(cpus: &[u32], max_cpu: u32) -> (r: Result<(), PerfError>)
    ensures
        r is Ok <==> forall|i: int| 0 <= i < cpus@.len() ==> cpus@[i] <= max_cpu,
        match r {
            Ok(()) => true,
            Err(e) => exists|i: int|
                first_out_of_range(cpus@, max_cpu, i) && e == (PerfError::CpuOutOfRange {
                    cpu_id: #[trigger] cpus@[i],
                    max_cpu,
                }),
        },
{
    let mut i: usize = 0;
    while i < cpus.len()
        invariant
            i <= cpus@.len(),
            forall|j: int| 0 <= j < i ==> cpus@[j] <= max_cpu,
        decreases cpus@.len() - i,
    {
        if cpus[i] > max_cpu {
            assert(first_out_of_range(cpus@, max_cpu, i as int));
            return Err(PerfError::CpuOutOfRange { cpu_id: cpus[i], max_cpu });
        }
        i = i + 1;
    }
    Ok(())
}

/// The message of `str::parse` refusing a text for an unsigned type:
/// empty, a character that is not a digit (after an optional `+`), or too
/// large.
pub open spec fn uint_parse_error(s: Seq<char>) -> Seq<char> {
    let d = if s.len() > 0 && s[0] == '+' {
        s.drop_first()
    } else {
        s
    };
    if s.len() == 0 {
        "cannot parse integer from empty string"@
    } else if d.len() == 0 || !all_digits(d, 10) {
        "invalid digit found in string"@
    } else {
        "number too large to fit in target type"@
    }
}

/// Parses a decimal unsigned number not above `max`, or gives the message
/// of `str::parse` refusing it.
pub fn parse_uint_or_message(s: &[char], max: u64) -> (r: Result<u64, String>)
    ensures
        match parse_uint_max(s@, 10, max as nat) {
            Some(n) => r == Ok::<u64, String>(n as u64),
            None => r matches Err(m) && m@ == uint_parse_error(s@),
        },
{
    match parse_uint_chars(s, 10, max) {
        Some(n) => Ok(n),
        None => {
            if s.len() == 0 {
                return Err(string_lit("cannot parse integer from empty string"));
            }
            let start: usize = if s[0] == '+' {
                1
            } else {
                0
            };
            let ghost d = if s@.len() > 0 && s@[0] == '+' {
                s@.drop_first()
            } else {
                s@
            };
            assert(d =~= s@.subrange(start as int, s@.len() as int));
            if start >= s.len() {
                return Err(string_lit("invalid digit found in string"));
            }
            let mut i: usize = start;
            while i < s.len()
                invariant
                    start <= i <= s@.len(),
                    d == s@.subrange(start as int, s@.len() as int),
                    d == (if s@.len() > 0 && s@[0] == '+' {
                        s@.drop_first()
                    } else {
                        s@
                    }),
                    forall|k: int| start <= k < i ==> #[trigger] crate::text::digit_val(s@[k], 10) is Some,
                decreases s@.len() - i,
            {
                if crate::text::char_digit(s[i], 10).is_none() {
                    assert(d[i - start] == s@[i as int]);
                    assert(crate::text::digit_val(d[i - start], 10) is None);
                    assert(!all_digits(d, 10));
                    assert(uint_parse_error(s@) == "invalid digit found in string"@);
                    return Err(string_lit("invalid digit found in string"));
                }
                i = i + 1;
            }
            assert(all_digits(d, 10)) by {
                assert forall|k: int| 0 <= k < d.len() implies #[trigger] crate::text::digit_val(d[k], 10) is Some by {
                    assert(d[k] == s@[k + start]);
                }
            }
            Err(string_lit("number too large to fit in target type"))
        },
    }
}

/// The CPUs of one entry of a sysfs CPU list (`N` or `A-B`); an empty
/// entry is skipped and a reversed range is empty. A refusal carries its
/// message.
pub open spec fn sysfs_part_spec(part: Seq<char>) -> Result<Set<u32>, Seq<char>> {
    let p = trim(part);
    if p.len() == 0 {
        Ok(Set::empty())
    } else if p.contains('-') {
        let rp = split(p, '-');
        if rp.len() != 2 {
            Err("Invalid CPU range: "@ + p)
        } else {
            match cpu_number(rp[0]) {
                None => Err(uint_parse_error(rp[0])),
                Some(start) => match cpu_number(rp[1]) {
                    None => Err(uint_parse_error(rp[1])),
                    Some(end) => Ok(cpu_range(start, end)),
                },
            }
        }
    } else {
        match cpu_number(p) {
            None => Err(uint_parse_error(p)),
            Some(c) => Ok(set![c]),
        }
    }
}

pub open spec fn sysfs_parts_spec(parts: Seq<Seq<char>>) -> Result<Set<u32>, Seq<char>>
    decreases parts.len(),
{
    if parts.len() == 0 {
        Ok(Set::empty())
    } else {
        match sysfs_parts_spec(parts.drop_last()) {
            Err(m) => Err(m),
            Ok(prev) => match sysfs_part_spec(parts.last()) {
                Err(m) => Err(m),
                Ok(s) => Ok(prev.union(s)),
            },
        }
    }
}

/// The online CPUs that a sysfs list states (`/sys/devices/system/cpu/online`,
/// trimmed), or the message of the first entry that cannot be read.
pub open spec fn sysfs_cpu_list_spec(s: Seq<char>) -> Result<Set<u32>, Seq<char>> {
    if s.len() == 0 {
        Ok(Set::empty())
    } else {
        sysfs_parts_spec(split(s, ','))
    }
}

fn add_sysfs_part(v: &mut Vec<u32>, part: &[char]) -> (r: Result<(), String>)
    requires
        strictly_sorted(old(v)@),
    ensures
        strictly_sorted(final(v)@),
        match sysfs_part_spec(part@) {
            Ok(set) => r is Ok && final(v)@.to_set() == old(v)@.to_set().union(set),
            Err(m) => r matches Err(x) && x@ == m,
        },
{
    let p = trim_chars(part);
    if p.len() == 0 {
        assert(old(v)@.to_set().union(Set::empty()) =~= old(v)@.to_set());
        return Ok(());
    }
    if find_char(p.as_slice(), '-').is_some() {
        let rp = split_chars(p.as_slice(), '-');
        if rp.len() != 2 {
            let mut m = str_to_chars("Invalid CPU range: ");
            push_all(&mut m, p.as_slice());
            return Err(chars_to_string(m.as_slice()));
        }
        let start = match parse_uint_or_message(rp[0].as_slice(), 0xffff_ffff) {
            Ok(s) => s as u32,
            Err(m) => {
                return Err(m);
            },
        };
        let end = match parse_uint_or_message(rp[1].as_slice(), 0xffff_ffff) {
            Ok(e) => e as u32,
            Err(m) => {
                return Err(m);
            },
        };
        if start <= end {
            insert_range(v, start, end);
        } else {
            assert(cpu_range(start, end) =~= Set::empty());
            assert(old(v)@.to_set().union(Set::empty()) =~= old(v)@.to_set());
        }
        Ok(())
    } else {
        match parse_uint_or_message(p.as_slice(), 0xffff_ffff) {
            Err(m) => Err(m),
            Ok(c64) => {
                let c = c64 as u32;
                insert_sorted(v, c);
                assert(set![c] =~= Set::empty().insert(c));
                assert(old(v)@.to_set().insert(c) =~= old(v)@.to_set().union(set![c]));
                Ok(())
            },
        }
    }
}

proof fn lemma_sysfs_parts_err_sticky(ps: Seq<Seq<char>>, k: int)
    requires
        0 <= k <= ps.len(),
        sysfs_parts_spec(ps.subrange(0, k)) is Err,
    ensures
        sysfs_parts_spec(ps) == sysfs_parts_spec(ps.subrange(0, k)),
    decreases ps.len() - k,
{
    if k < ps.len() {
        assert(ps.subrange(0, k + 1).drop_last() == ps.subrange(0, k));
        lemma_sysfs_parts_err_sticky(ps, k + 1);
    } else {
        assert(ps.subrange(0, k) == ps);
    }
}

/// Parses the online-CPU list that sysfs writes (already trimmed), sorted
/// and without repetition. A malformed entry is a `FileRead` error for
/// `path` whose cause is the entry's message.
pub fn parse_sysfs_cpu_list(s: &str, path: &str) -> (r: Result<Vec<u32>, PerfError>)
    ensures
        match sysfs_cpu_list_spec(s@) {
            Ok(set) => r matches Ok(v) && strictly_sorted(v@) && v@.to_set() == set,
            Err(m) => r matches Err(PerfError::FileRead { path: p, source }) && p@ == path@
                && source@ == m,
        },
{
    let chars = str_to_chars(s);
    let mut cpus: Vec<u32> = Vec::new();
    if chars.len() == 0 {
        assert(cpus@.to_set() =~= Set::<u32>::empty());
        return Ok(cpus);
    }
    let parts = split_chars(chars.as_slice(), ',');
    let ghost ps = split(s@, ',');
    let n: usize = parts.len();
    let mut k: usize = 0;
    assert(cpus@.to_set() =~= Set::<u32>::empty());
    while k < n
        invariant
            0 <= k <= n,
            n == parts@.len(),
            ps == split(s@, ','),
            ps.len() == n,
            forall|i: int| 0 <= i < n ==> #[trigger] parts@[i]@ == ps[i],
            strictly_sorted(cpus@),
            sysfs_parts_spec(ps.subrange(0, k as int)) == Ok::<Set<u32>, Seq<char>>(cpus@.to_set()),
        decreases n - k,
    {
        assert(ps.subrange(0, k + 1).drop_last() == ps.subrange(0, k as int));
        assert(ps.subrange(0, k + 1).last() == ps[k as int]);
        match add_sysfs_part(&mut cpus, parts[k].as_slice()) {
            Ok(()) => {},
            Err(m) => {
                proof {
                    lemma_sysfs_parts_err_sticky(ps, k + 1);
                }
                return Err(PerfError::FileRead { path: string_lit(path), source: m });
            },
        }
        k = k + 1;
    }
    assert(ps.subrange(0, n as int) == ps);
    Ok(cpus)
}

/// The number of online CPUs that a sysfs list states.
pub fn get_cpu_count(online: &str, path: &str) -> (r: Result<usize, PerfError>)
    ensures
        match sysfs_cpu_list_spec(online@) {
            Ok(set) => r matches Ok(n) && n == set.len(),
            Err(m) => r matches Err(PerfError::FileRead { path: p, source }) && p@ == path@
                && source@ == m,
        },
{
    match parse_sysfs_cpu_list(online, path) {
        Ok(v) => {
            proof {
                lemma_sorted_len(v@);
            }
            Ok(v.len())
        },
        Err(e) => Err(e),
    }
}

proof fn lemma_sorted_len(s: Seq<u32>)
    requires
        strictly_sorted(s),
    ensures
        s.to_set().len() == s.len(),
{
    assert(s.no_duplicates()) by {
        assert forall|i: int, j: int| 0 <= i < s.len() && 0 <= j < s.len() && i != j implies s[i] != s[j] by {
            if i < j {
            } else {
            }
        }
    }
    s.unique_seq_to_set();
}

} // verus!
