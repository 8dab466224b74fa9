//! Kernel symbols, from the text of `/proc/kallsyms`.
//!
//! Each line reads `address type name [module]`, for instance
//! `ffffffff81000000 T _text`. Only text symbols (types `T`, `t`, `W`,
//! `w`) at a nonzero address are kept.

use vstd::prelude::*;
use std::collections::HashMap;
use crate::error::PerfError;
use crate::text::{parse_uint_chars, parse_uint_max, split, split_chars, split_whitespace_chars, str_to_chars, chars_to_string, string_of, words};
use super::{SymbolInfo, SymbolResolver};

verus! {

broadcast use vstd::std_specs::hash::group_hash_axioms;

/// What one line of the symbol list contributes.
pub ghost enum KallsymsLine {
    /// Fewer than three fields, a bad address or a non-text symbol.
    Skip,
    /// An address of zero: addresses are hidden from this reader.
    ZeroAddr,
    Symbol(u64, Seq<char>),
}

/// A text symbol type: the field starts with `T`, `t`, `W` or `w`.
pub open spec fn is_text_type(t: Seq<char>) -> bool {
    t.len() > 0 && (t[0] == 'T' || t[0] == 't' || t[0] == 'W' || t[0] == 'w')
}

pub open spec fn kallsyms_line(line: Seq<char>) -> KallsymsLine {
    let p = words(line);
    if p.len() < 3 {
        KallsymsLine::Skip
    } else {
        match parse_uint_max(p[0], 16, u64::MAX as nat) {
            None => KallsymsLine::Skip,
            Some(a) => if a == 0 {
                KallsymsLine::ZeroAddr
            } else if is_text_type(p[1]) {
                KallsymsLine::Symbol(a as u64, p[2])
            } else {
                KallsymsLine::Skip
            },
        }
    }
}

/// The symbol table after the given lines are added to `m`; a later line
/// for the same address replaces the name.
pub open spec fn kallsyms_symbols(m: Map<u64, Seq<char>>, lines: Seq<Seq<char>>) -> Map<u64, Seq<char>>
    decreases lines.len(),
{
    if lines.len() == 0 {
        m
    } else {
        let m2 = kallsyms_symbols(m, lines.drop_last());
        match kallsyms_line(lines.last()) {
            KallsymsLine::Symbol(a, n) => m2.insert(a, n),
            _ => m2,
        }
    }
}

/// A line at a nonzero address whose type is a text symbol, global or
/// local, strong or weak (`T`, `t`, `W`, `w`), adds its name at its
/// address; a line of any other type adds nothing.
pub proof fn lemma_kallsyms_kept_types(m: Map<u64, Seq<char>>, lines: Seq<Seq<char>>, line: Seq<char>)
    requires
        words(line).len() >= 3,
        words(line)[1].len() > 0,
        parse_uint_max(words(line)[0], 16, u64::MAX as nat) matches Some(a) && a != 0,
    ensures
        ({
            let t = words(line)[1][0];
            let a = parse_uint_max(words(line)[0], 16, u64::MAX as nat).unwrap() as u64;
            &&& (t == 'T' || t == 't' || t == 'W' || t == 'w') ==> kallsyms_symbols(m, lines.push(line))
                == kallsyms_symbols(m, lines).insert(a, words(line)[2])
            &&& !(t == 'T' || t == 't' || t == 'W' || t == 'w') ==> kallsyms_symbols(m, lines.push(line))
                == kallsyms_symbols(m, lines)
        }),
{
    assert(lines.push(line).drop_last() =~= lines);
    assert(lines.push(line).last() == line);
}

/// A line with fewer than three fields, an address that is no hexadecimal
/// number, or an address of zero adds nothing.
pub proof fn lemma_kallsyms_skipped_lines(m: Map<u64, Seq<char>>, lines: Seq<Seq<char>>, line: Seq<char>)
    requires
        words(line).len() < 3 || parse_uint_max(words(line)[0], 16, u64::MAX as nat) is None
            || parse_uint_max(words(line)[0], 16, u64::MAX as nat) == Some(0nat),
    ensures
        kallsyms_symbols(m, lines.push(line)) == kallsyms_symbols(m, lines),
{
    assert(lines.push(line).drop_last() =~= lines);
    assert(lines.push(line).last() == line);
}

/// Some line has a zero address.
pub open spec fn kallsyms_has_zero(lines: Seq<Seq<char>>) -> bool {
    exists|i: int| 0 <= i < lines.len() && #[trigger] kallsyms_line(lines[i]) == KallsymsLine::ZeroAddr
}

/// The elements of `s` increase strictly.
pub open spec fn increasing(s: Seq<u64>) -> bool {
    forall|i: int, j: int| 0 <= i < j < s.len() ==> s[i] < s[j]
}

/// `a` is the largest element of `dom` that is at most `addr`.
pub open spec fn is_floor(dom: Set<u64>, addr: u64, a: u64) -> bool {
    &&& dom.contains(a)
    &&& a <= addr
    &&& forall|k: u64| dom.contains(k) && k <= addr ==> k <= a
}

/// Inserts `addr` into an increasing sequence, unless it is there.
fn insert_sorted_addr(sorted: &mut Vec<u64>, addr: u64)
    requires
        increasing(old(sorted)@),
    ensures
        increasing(final(sorted)@),
        forall|k: u64| #[trigger] final(sorted)@.contains(k) <==> old(sorted)@.contains(k) || k == addr,
{
    let n: usize = sorted.len();
    let mut lo: usize = 0;
    let mut hi: usize = n;
    while lo < hi
        invariant
            0 <= lo <= hi <= n,
            n == sorted@.len(),
            forall|j: int| 0 <= j < lo ==> sorted@[j] < addr,
            forall|j: int| hi <= j < n ==> sorted@[j] >= addr,
            increasing(sorted@),
        decreases hi - lo,
    {
        let mid: usize = lo + (hi - lo) / 2;
        if sorted[mid] < addr {
            lo = mid + 1;
        } else {
            hi = mid;
        }
    }
    let ghost old_sorted = sorted@;
    if lo < n && sorted[lo] == addr {
        return;
    }
    sorted.insert(lo, addr);
    assert forall|i: int, j: int| 0 <= i < j < sorted@.len() implies sorted@[i] < sorted@[j] by {
        if j < lo {
        } else if i < lo && j == lo {
        } else if i < lo {
            assert(sorted@[j] == old_sorted[j - 1]);
        } else if i == lo {
            assert(sorted@[j] == old_sorted[j - 1]);
        } else {
            assert(sorted@[j] == old_sorted[j - 1]);
            assert(sorted@[i] == old_sorted[i - 1]);
        }
    }
    assert forall|k: u64| #[trigger] sorted@.contains(k) <==> old_sorted.contains(k) || k == addr by {
        if old_sorted.contains(k) {
            let j = choose|j: int| 0 <= j < old_sorted.len() && old_sorted[j] == k;
            if j < lo {
                assert(sorted@[j] == k);
            } else {
                assert(sorted@[j + 1] == k);
            }
        }
        if k == addr {
            assert(sorted@[lo as int] == addr);
        }
        if sorted@.contains(k) && k != addr {
            let j = choose|j: int| 0 <= j < sorted@.len() && sorted@[j] == k;
            if j < lo {
                assert(old_sorted[j] == k);
            } else {
                assert(old_sorted[j - 1] == k);
            }
        }
    }
}

/// The kernel's text symbols, by start address.
pub struct KernelResolver {
    symbols: HashMap<u64, String>,
    sorted_addrs: Vec<u64>,
    loaded: bool,
}

impl KernelResolver {
    /// The symbols: start address to name.
    pub closed spec fn symbol_map(&self) -> Map<u64, Seq<char>> {
        self.symbols@.map_values(|s: String| s@)
    }

    pub closed spec fn is_loaded(&self) -> bool {
        self.loaded
    }

    /// The addresses are kept sorted, once each, beside the table.
    #[verifier::type_invariant]
    spec fn wf(&self) -> bool {
        &&& increasing(self.sorted_addrs@)
        &&& forall|k: u64| self.symbols@.contains_key(k) <==> self.sorted_addrs@.contains(k)
    }

    /// An empty resolver.
    pub fn new() -> (r: Self)
        ensures
            r.symbol_map() == Map::<u64, Seq<char>>::empty(),
            !r.is_loaded(),
    {
        let r = KernelResolver { symbols: HashMap::new(), sorted_addrs: Vec::new(), loaded: false };
        assert(r.symbol_map() =~= Map::<u64, Seq<char>>::empty());
        r
    }

    /// Whether no symbol is known.
    pub fn is_empty(&self) -> (r: bool)
        ensures
            r == self.symbol_map().is_empty(),
    {
        let r = self.symbols.is_empty();
        assert(self.symbol_map().dom() =~= self.symbols@.dom());
        r
    }

    /// Adds (or renames) the symbol at `addr`.
    pub fn insert_symbol(&mut self, addr: u64, name: String)
        ensures
            final(self).symbol_map() == old(self).symbol_map().insert(addr, name@),
            final(self).is_loaded() == old(self).is_loaded(),
    {
        let ghost nm = name@;
        let mut tmp = KernelResolver::new();
        std::mem::swap(self, &mut tmp);
        proof {
            use_type_invariant(&tmp);
        }
        let KernelResolver { mut symbols, mut sorted_addrs, loaded } = tmp;
        symbols.insert(addr, name);
        insert_sorted_addr(&mut sorted_addrs, addr);
        *self = KernelResolver { symbols, sorted_addrs, loaded };
        assert(self.symbol_map() =~= old(self).symbol_map().insert(addr, nm));
    }

    /// Adds the text symbols of a symbol list (the contents of
    /// `/proc/kallsyms`). When some address reads zero and no symbol is
    /// known at the end, addresses are hidden from this reader and the
    /// result is `PermissionDenied`.
    pub fn load_kallsyms(&mut self, content: &str) -> (r: Result<(), PerfError>)
        ensures
            ({
                let lines = split(content@, '\n');
                let m = kallsyms_symbols(old(self).symbol_map(), lines);
                &&& final(self).symbol_map() == m
                &&& if kallsyms_has_zero(lines) && m.is_empty() {
                    &&& r matches Err(PerfError::PermissionDenied { operation })
                    &&& operation@ == "read kernel symbols - kptr_restrict may be enabled"@
                    &&& final(self).is_loaded() == old(self).is_loaded()
                } else {
                    r is Ok && final(self).is_loaded()
                }
            }),
    {
        let chars = str_to_chars(content);
        let lines = split_chars(chars.as_slice(), '\n');
        let ghost ls = split(content@, '\n');
        let ghost m0 = self.symbol_map();
        let n: usize = lines.len();
        let mut zero_seen = false;
        let mut i: usize = 0;
        while i < n
            invariant
                0 <= i <= n,
                n == lines@.len(),
                ls == split(content@, '\n'),
                ls.len() == n,
                forall|k: int| 0 <= k < n ==> #[trigger] lines@[k]@ == ls[k],
                self.symbol_map() == kallsyms_symbols(m0, ls.subrange(0, i as int)),
                zero_seen == kallsyms_has_zero(ls.subrange(0, i as int)),
                self.loaded == old(self).loaded,
            decreases n - i,
        {
            let ghost pre = ls.subrange(0, i as int);
            let ghost post = ls.subrange(0, i + 1);
            assert(post.drop_last() =~= pre);
            assert(post.last() == ls[i as int]);
            let parts = split_whitespace_chars(lines[i].as_slice());
            let mut kind: u8 = 0;
            if parts.len() >= 3 {
                match parse_uint_chars(parts[0].as_slice(), 16, 0xffff_ffff_ffff_ffff) {
                    None => {},
                    Some(a) => {
                        if a == 0 {
                            zero_seen = true;
                            kind = 1;
                        } else {
                            let t = &parts[1];
                            if t.len() > 0 && (t[0] == 'T' || t[0] == 't' || t[0] == 'W' || t[0] == 'w') {
                                let name = chars_to_string(parts[2].as_slice());
                                self.insert_symbol(a, name);
                                kind = 2;
                            }
                        }
                    },
                }
            }
            proof {
                let line = ls[i as int];
                if kind == 1 {
                    assert(kallsyms_line(post[i as int]) == KallsymsLine::ZeroAddr);
                } else {
                    assert(kallsyms_line(line) != KallsymsLine::ZeroAddr);
                    if zero_seen {
                        let w = choose|w: int| 0 <= w < pre.len() && #[trigger] kallsyms_line(pre[w])
                            == KallsymsLine::ZeroAddr;
                        assert(post[w] == pre[w]);
                    } else {
                        assert forall|w: int| 0 <= w < post.len() implies #[trigger] kallsyms_line(post[w])
                            != KallsymsLine::ZeroAddr by {
                            if w < pre.len() {
                                assert(post[w] == pre[w]);
                            }
                        }
                    }
                }
                if zero_seen && kind == 1 {
                    assert(post[i as int] == ls[i as int]);
                }
            }
            i = i + 1;
        }
        assert(ls.subrange(0, n as int) =~= ls);
        let empty = self.is_empty();
        if zero_seen && empty {
            return Err(
                PerfError::PermissionDenied {
                    operation: string_of("read kernel symbols - kptr_restrict may be enabled"),
                },
            );
        }
        proof {
            use_type_invariant(&*self);
        }
        self.loaded = true;
        Ok(())
    }

    /// The symbol with the largest start address at or below `addr`.
    pub fn find_symbol_containing(&self, addr: u64) -> (r: Option<(u64, String)>)
        ensures
            match r {
                Some((a, name)) => is_floor(self.symbol_map().dom(), addr, a) && name@
                    == self.symbol_map()[a],
                None => forall|k: u64| self.symbol_map().dom().contains(k) ==> k > addr,
            },
    {
        proof {
            use_type_invariant(self);
        }
        let n: usize = self.sorted_addrs.len();
        let mut lo: usize = 0;
        let mut hi: usize = n;
        while lo < hi
            invariant
                0 <= lo <= hi <= n,
                n == self.sorted_addrs@.len(),
                forall|j: int| 0 <= j < lo ==> self.sorted_addrs@[j] <= addr,
                forall|j: int| hi <= j < n ==> self.sorted_addrs@[j] > addr,
                increasing(self.sorted_addrs@),
            decreases hi - lo,
        {
            let mid: usize = lo + (hi - lo) / 2;
            if self.sorted_addrs[mid] <= addr {
                lo = mid + 1;
            } else {
                hi = mid;
            }
        }
        if lo == 0 {
            assert forall|k: u64| self.symbol_map().dom().contains(k) implies k > addr by {
                assert(self.symbols@.contains_key(k));
                assert(self.sorted_addrs@.contains(k));
                let j = choose|j: int| 0 <= j < self.sorted_addrs@.len() && self.sorted_addrs@[j] == k;
            }
            return None;
        }
        let a = self.sorted_addrs[lo - 1];
        assert(self.sorted_addrs@.contains(a));
        assert forall|k: u64| self.symbol_map().dom().contains(k) && k <= addr implies k <= a by {
            assert(self.symbols@.contains_key(k));
            assert(self.sorted_addrs@.contains(k));
            let j = choose|j: int| 0 <= j < self.sorted_addrs@.len() && self.sorted_addrs@[j] == k;
            if j > lo - 1 {
                assert(j < lo);
            }
        }
        match self.symbols.get(&a) {
            Some(name) => Some((a, name.clone())),
            None => None,
        }
    }
}

impl SymbolResolver for KernelResolver {
    /// The symbol of `find_symbol_containing`, with size zero.
    fn resolve(&self, addr: u64) -> (r: Result<Option<SymbolInfo>, PerfError>)
        ensures
            match r {
                Ok(Some(s)) => is_floor(self.symbol_map().dom(), addr, s.start_addr) && s.name@
                    == self.symbol_map()[s.start_addr] && s.size == 0 && s.source_file is None
                    && s.line is None,
                Ok(None) => forall|k: u64| self.symbol_map().dom().contains(k) ==> k > addr,
                Err(_) => false,
            },
    {
        match self.find_symbol_containing(addr) {
            Some((a, name)) => Ok(Some(SymbolInfo::new(name, a, 0))),
            None => Ok(None),
        }
    }

    fn clear(&mut self)
        ensures
            final(self).symbol_map() == Map::<u64, Seq<char>>::empty(),
            !final(self).is_loaded(),
    {
        *self = KernelResolver::new();
    }
}

} // verus!
