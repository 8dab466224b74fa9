//! The function symbols of an ELF file, ordered by address, and how an
//! address is resolved against them. The symbols are handed in as plain
//! values read from the file's symbol tables.

use vstd::prelude::*;
use crate::order::{ranked_sorted, sort_ranked, Ranked};
use crate::symbols::SymbolInfo;
use addr2line::object::{Object, ObjectSymbol};

verus! {

/// A symbol as the file's symbol table gives it.
pub struct RawSymbol {
    pub name: String,
    pub address: u64,
    pub size: u64,
    /// Whether the symbol is defined in the file.
    pub is_definition: bool,
    /// Whether the symbol is code.
    pub is_text: bool,
}

/// A function symbol: where it starts and ends, its name and its size.
pub struct SymbolEntry {
    pub start_addr: u64,
    pub end_addr: u64,
    pub name: String,
    pub size: u64,
}

/// Whether a symbol is kept: named, defined, code, at a non-zero address.
pub open spec fn kept_symbol(s: RawSymbol) -> bool {
    s.name@.len() > 0 && s.is_definition && s.is_text && s.address != 0
}

/// Where a symbol ends: its address plus its size, or plus one when its
/// size is zero (modulo 2^64).
pub open spec fn symbol_end(address: u64, size: u64) -> u64 {
    let n: int = if size > 0 {
        size as int
    } else {
        1
    };
    if address + n > u64::MAX {
        (address + n - 0x1_0000_0000_0000_0000) as u64
    } else {
        (address + n) as u64
    }
}

/// The entries kept from the symbol table (in order), then those kept
/// from the dynamic symbol table (in order) whose address no entry so far
/// starts at, as (start, end, name, size).
pub open spec fn collected(statics: Seq<RawSymbol>, dynamics: Seq<RawSymbol>) -> Seq<(u64, u64, Seq<char>, u64)>
    decreases dynamics.len(),
{
    if dynamics.len() == 0 {
        statics_collected(statics)
    } else {
        let prev = collected(statics, dynamics.drop_last());
        let s = dynamics.last();
        if kept_symbol(s) && !(exists|i: int| 0 <= i < prev.len() && (#[trigger] prev[i]).0 == s.address) {
            prev.push((s.address, symbol_end(s.address, s.size), s.name@, s.size))
        } else {
            prev
        }
    }
}

pub open spec fn statics_collected(statics: Seq<RawSymbol>) -> Seq<(u64, u64, Seq<char>, u64)>
    decreases statics.len(),
{
    if statics.len() == 0 {
        Seq::empty()
    } else {
        let prev = statics_collected(statics.drop_last());
        let s = statics.last();
        if kept_symbol(s) {
            prev.push((s.address, symbol_end(s.address, s.size), s.name@, s.size))
        } else {
            prev
        }
    }
}

pub open spec fn entry_view(e: SymbolEntry) -> (u64, u64, Seq<char>, u64) {
    (e.start_addr, e.end_addr, e.name@, e.size)
}

pub open spec fn entries_view(s: Seq<SymbolEntry>) -> Seq<(u64, u64, Seq<char>, u64)> {
    s.map_values(|e: SymbolEntry| entry_view(e))
}

impl Ranked for SymbolEntry {
    open spec fn ranks_before(self, other: Self) -> bool {
        self.start_addr <= other.start_addr
    }

    proof fn lemma_ranks_total(a: Self, b: Self) {
    }

    proof fn lemma_ranks_trans(a: Self, b: Self, c: Self) {
    }

    fn le(&self, other: &Self) -> (r: bool) {
        self.start_addr <= other.start_addr
    }
}

/// What a symbol of the file holds, as plain values: name, address, size,
/// whether it is defined, whether it is code.
pub open spec fn raw_symbol_view(s: RawSymbol) -> (Seq<char>, u64, u64, bool, bool) {
    (s.name@, s.address, s.size, s.is_definition, s.is_text)
}

pub open spec fn raw_symbols_view(s: Seq<RawSymbol>) -> Seq<(Seq<char>, u64, u64, bool, bool)> {
    s.map_values(|x: RawSymbol| raw_symbol_view(x))
}

/// The symbol table and the dynamic symbol table that the ELF parser
/// (`object::File::parse`) reads from the bytes of a file, or the message
/// of its failure to parse them.
pub uninterp spec fn elf_symbol_tables(bytes: Seq<u8>) -> Result<
    (Seq<(Seq<char>, u64, u64, bool, bool)>, Seq<(Seq<char>, u64, u64, bool, bool)>),
    Seq<char>,
>;

/// `object::File::parse`, then its `symbols()` and `dynamic_symbols()`,
/// each symbol taken as its name (empty where it does not decode), address,
/// size, whether it is defined and whether it is code. The result is the
/// named one for these bytes.
#[verifier::external_body]
pub(crate) fn read_elf_symbol_tables(bytes: &[u8]) -> (r: Result<(Vec<RawSymbol>, Vec<RawSymbol>), String>)
    ensures
        elf_symbol_tables(bytes@) == (match r {
            Ok((a, b)) => Ok((raw_symbols_view(a@), raw_symbols_view(b@))),
            Err(m) => Err(m@),
        }),
{
    let file = addr2line::object::File::parse(bytes).map_err(|e| e.to_string())?;
    let raw = |s: addr2line::object::Symbol<'_, '_>| RawSymbol {
        name: s.name().unwrap_or("").to_string(),
        address: s.address(),
        size: s.size(),
        is_definition: s.is_definition(),
        is_text: s.kind() == addr2line::object::SymbolKind::Text,
    };
    Ok((file.symbols().map(raw).collect(), file.dynamic_symbols().map(raw).collect()))
}

/// The kept entries depend on what the symbols hold alone.
proof fn lemma_statics_collected_views(a: Seq<RawSymbol>, a2: Seq<RawSymbol>)
    requires
        raw_symbols_view(a) == raw_symbols_view(a2),
    ensures
        statics_collected(a) == statics_collected(a2),
    decreases a.len(),
{
    assert(a.len() == raw_symbols_view(a).len());
    assert(a2.len() == raw_symbols_view(a2).len());
    if a.len() > 0 {
        assert(raw_symbols_view(a.drop_last()) =~= raw_symbols_view(a).drop_last());
        assert(raw_symbols_view(a2.drop_last()) =~= raw_symbols_view(a2).drop_last());
        assert(raw_symbol_view(a.last()) == raw_symbols_view(a)[a.len() - 1]);
        assert(raw_symbol_view(a2.last()) == raw_symbols_view(a2)[a2.len() - 1]);
        lemma_statics_collected_views(a.drop_last(), a2.drop_last());
    }
}

proof fn lemma_collected_views(a: Seq<RawSymbol>, b: Seq<RawSymbol>, a2: Seq<RawSymbol>, b2: Seq<RawSymbol>)
    requires
        raw_symbols_view(a) == raw_symbols_view(a2),
        raw_symbols_view(b) == raw_symbols_view(b2),
    ensures
        collected(a, b) == collected(a2, b2),
    decreases b.len(),
{
    assert(b.len() == raw_symbols_view(b).len());
    assert(b2.len() == raw_symbols_view(b2).len());
    if b.len() == 0 {
        lemma_statics_collected_views(a, a2);
    } else {
        assert(raw_symbols_view(b.drop_last()) =~= raw_symbols_view(b).drop_last());
        assert(raw_symbols_view(b2.drop_last()) =~= raw_symbols_view(b2).drop_last());
        assert(raw_symbol_view(b.last()) == raw_symbols_view(b)[b.len() - 1]);
        assert(raw_symbol_view(b2.last()) == raw_symbols_view(b2)[b2.len() - 1]);
        lemma_collected_views(a, b.drop_last(), a2, b2.drop_last());
    }
}

/// The entries kept from symbol tables that hold these symbols.
pub open spec fn collected_from_views(
    st: Seq<(Seq<char>, u64, u64, bool, bool)>,
    dy: Seq<(Seq<char>, u64, u64, bool, bool)>,
    entries: Seq<(u64, u64, Seq<char>, u64)>,
) -> bool {
    forall|a: Seq<RawSymbol>, b: Seq<RawSymbol>|
        #![trigger collected(a, b)]
        raw_symbols_view(a) == st && raw_symbols_view(b) == dy ==> entries.to_multiset() == collected(
            a,
            b,
        ).to_multiset()
}

/// The source file and line that the line tables of an ELF file given as
/// bytes give for an address: `addr2line::Context` built from the file that
/// `object::File::parse` reads from the bytes, then `find_location`; none
/// where the bytes do not parse, no context can be built, the lookup fails,
/// or the location lacks a file or a line.
pub uninterp spec fn line_location(bytes: Seq<u8>, addr: u64) -> Option<(Seq<char>, u32)>;

/// `object::File::parse`, `addr2line::Context::new` and
/// `Context::find_location`: the named location of the address in these
/// bytes.
#[verifier::external_body]
pub(crate) fn find_line_location(bytes: &[u8], addr: u64) -> (r: Option<(String, u32)>)
    ensures
        line_location(bytes@, addr) == (match r {
            Some((f, l)) => Some((f@, l)),
            None => None,
        }),
{
    let file = addr2line::object::File::parse(bytes).ok()?;
    let context = addr2line::Context::new(&file).ok()?;
    let location = context.find_location(addr).ok()??;
    Some((location.file?.to_string(), location.line?))
}


/// The function symbols of an ELF file, by start address.
pub struct ElfSymbols {
    symbols: Vec<SymbolEntry>,
}

fn make_entry(s: RawSymbol) -> (e: SymbolEntry)
    ensures
        entry_view(e) == (s.address, symbol_end(s.address, s.size), s.name@, s.size),
{
    let end = if s.size > 0 {
        s.address.wrapping_add(s.size)
    } else {
        s.address.wrapping_add(1)
    };
    SymbolEntry { start_addr: s.address, end_addr: end, name: s.name, size: s.size }
}

fn keep_symbol(s: &RawSymbol) -> (r: bool)
    ensures
        r == kept_symbol(*s),
{
    s.name.unicode_len() > 0 && s.is_definition && s.is_text && s.address != 0
}

impl ElfSymbols {
    #[verifier::type_invariant]
    spec fn sorted_inv(self) -> bool {
        ranked_sorted(self.symbols@)
    }

    /// The entries, by start address.
    pub closed spec fn entries(&self) -> Seq<SymbolEntry> {
        self.symbols@
    }

    /// No symbol.
    pub fn new() -> (r: Self)
        ensures
            r.entries().len() == 0,
    {
        ElfSymbols { symbols: Vec::new() }
    }

    /// Whether there is no symbol.
    pub fn is_empty(&self) -> (r: bool)
        ensures
            r == (self.entries().len() == 0),
    {
        self.symbols.len() == 0
    }

    /// Drops every symbol.
    pub fn clear(&mut self)
        ensures
            final(self).entries().len() == 0,
    {
        self.symbols = Vec::new();
    }

    /// The function symbols of an ELF file given as bytes: its symbol
    /// tables as the parser reads them (see `elf_symbol_tables`), kept and
    /// ordered as `from_symbols` does; the parser's message when the bytes
    /// do not parse.
    pub fn from_elf_bytes(bytes: &[u8]) -> (r: Result<Self, String>)
        ensures
            match elf_symbol_tables(bytes@) {
                Ok((st, dy)) => r matches Ok(t) && ranked_sorted(t.entries()) && collected_from_views(
                    st,
                    dy,
                    entries_view(t.entries()),
                ),
                Err(m) => r matches Err(x) && x@ == m,
            },
    {
        match read_elf_symbol_tables(bytes) {
            Ok((statics, dynamics)) => {
                let ghost a0 = statics@;
                let ghost b0 = dynamics@;
                let t = ElfSymbols::from_symbols(statics, dynamics);
                assert forall|a: Seq<RawSymbol>, b: Seq<RawSymbol>|
                    raw_symbols_view(a) == raw_symbols_view(a0) && raw_symbols_view(b) == raw_symbols_view(b0)
                        implies entries_view(t.entries()).to_multiset() == #[trigger] collected(a, b).to_multiset() by {
                    lemma_collected_views(a0, b0, a, b);
                }
                Ok(t)
            },
            Err(m) => Err(m),
        }
    }

    /// The function symbols of the symbol table and of the dynamic symbol
    /// table (see `collected`), ordered by start address; entries with the
    /// same start keep their order.
    pub fn from_symbols(statics: Vec<RawSymbol>, dynamics: Vec<RawSymbol>) -> (r: Self)
        ensures
            ranked_sorted(r.entries()),
            entries_view(r.entries()).to_multiset() == collected(statics@, dynamics@).to_multiset(),
    {
        let ghost st = statics@;
        let ghost dy = dynamics@;
        let mut entries: Vec<SymbolEntry> = Vec::new();
        let mut rest = statics;
        let ghost mut taken: int = 0;
        while rest.len() > 0
            invariant
                0 <= taken <= st.len(),
                rest@ == st.skip(taken),
                entries_view(entries@) == statics_collected(st.subrange(0, taken)),
            decreases rest@.len(),
        {
            let s = rest.remove(0);
            assert(s == st[taken]);
            assert(st.subrange(0, taken + 1).drop_last() =~= st.subrange(0, taken));
            if keep_symbol(&s) {
                let e = make_entry(s);
                entries.push(e);
            }
            assert(entries_view(entries@) =~= statics_collected(st.subrange(0, taken + 1)));
            proof {
                taken = taken + 1;
            }
            assert(rest@ =~= st.skip(taken));
        }
        assert(st.subrange(0, taken) =~= st);
        let mut drest = dynamics;
        let ghost mut dtaken: int = 0;
        assert(dy.subrange(0, 0) =~= Seq::<RawSymbol>::empty());
        while drest.len() > 0
            invariant
                0 <= dtaken <= dy.len(),
                drest@ == dy.skip(dtaken),
                entries_view(entries@) == collected(st, dy.subrange(0, dtaken)),
            decreases drest@.len(),
        {
            let s = drest.remove(0);
            assert(s == dy[dtaken]);
            assert(dy.subrange(0, dtaken + 1).drop_last() =~= dy.subrange(0, dtaken));
            let ghost prev = entries_view(entries@);
            if keep_symbol(&s) {
                let mut seen = false;
                let mut k: usize = 0;
                while k < entries.len()
                    invariant
                        k <= entries@.len(),
                        prev == entries_view(entries@),
                        seen == (exists|i: int| 0 <= i < k && (#[trigger] prev[i]).0 == s.address),
                    decreases entries@.len() - k,
                {
                    if entries[k].start_addr == s.address {
                        seen = true;
                    }
                    assert(prev[k as int].0 == entries@[k as int].start_addr);
                    k = k + 1;
                }
                if !seen {
                    let e = make_entry(s);
                    entries.push(e);
                }
            }
            assert(entries_view(entries@) =~= collected(st, dy.subrange(0, dtaken + 1)));
            proof {
                dtaken = dtaken + 1;
            }
            assert(drest@ =~= dy.skip(dtaken));
        }
        assert(dy.subrange(0, dtaken) =~= dy);
        let ghost unsorted = entries@;
        let sorted = sort_ranked(entries);
        proof {
            crate::order::lemma_map_multiset(sorted@, unsorted, |e: SymbolEntry| entry_view(e));
        }
        ElfSymbols { symbols: sorted }
    }

    /// How many entries start below `addr`.
    fn count_below(&self, addr: u64) -> (r: usize)
        requires
            ranked_sorted(self.entries()),
        ensures
            r <= self.entries().len(),
            forall|i: int| 0 <= i < r ==> (#[trigger] self.entries()[i]).start_addr < addr,
            forall|i: int| r <= i < self.entries().len() ==> (#[trigger] self.entries()[i]).start_addr >= addr,
    {
        let mut lo: usize = 0;
        let mut hi: usize = self.symbols.len();
        while lo < hi
            invariant
                lo <= hi <= self.symbols@.len(),
                ranked_sorted(self.symbols@),
                forall|i: int| 0 <= i < lo ==> (#[trigger] self.symbols@[i]).start_addr < addr,
                forall|i: int| hi <= i < self.symbols@.len() ==> (#[trigger] self.symbols@[i]).start_addr >= addr,
            decreases hi - lo,
        {
            let mid = lo + (hi - lo) / 2;
            if self.symbols[mid].start_addr < addr {
                assert forall|i: int| 0 <= i <= mid implies (#[trigger] self.symbols@[i]).start_addr < addr by {
                    if i < mid {
                        assert(self.symbols@[i].ranks_before(self.symbols@[mid as int]));
                    }
                }
                lo = mid + 1;
            } else {
                assert forall|i: int| mid <= i < self.symbols@.len() implies (#[trigger] self.symbols@[i]).start_addr
                    >= addr by {
                    if i > mid {
                        assert(self.symbols@[mid as int].ranks_before(self.symbols@[i]));
                    }
                }
                hi = mid;
            }
        }
        lo
    }

    /// How many entries start at or below `addr`.
    fn count_at_or_below(&self, addr: u64) -> (r: usize)
        requires
            ranked_sorted(self.entries()),
        ensures
            r <= self.entries().len(),
            forall|i: int| 0 <= i < r ==> (#[trigger] self.entries()[i]).start_addr <= addr,
            forall|i: int| r <= i < self.entries().len() ==> (#[trigger] self.entries()[i]).start_addr > addr,
    {
        let mut lo: usize = 0;
        let mut hi: usize = self.symbols.len();
        while lo < hi
            invariant
                lo <= hi <= self.symbols@.len(),
                ranked_sorted(self.symbols@),
                forall|i: int| 0 <= i < lo ==> (#[trigger] self.symbols@[i]).start_addr <= addr,
                forall|i: int| hi <= i < self.symbols@.len() ==> (#[trigger] self.symbols@[i]).start_addr > addr,
            decreases hi - lo,
        {
            let mid = lo + (hi - lo) / 2;
            if self.symbols[mid].start_addr <= addr {
                assert forall|i: int| 0 <= i <= mid implies (#[trigger] self.symbols@[i]).start_addr <= addr by {
                    if i < mid {
                        assert(self.symbols@[i].ranks_before(self.symbols@[mid as int]));
                    }
                }
                lo = mid + 1;
            } else {
                assert forall|i: int| mid <= i < self.symbols@.len() implies (#[trigger] self.symbols@[i]).start_addr
                    > addr by {
                    if i > mid {
                        assert(self.symbols@[mid as int].ranks_before(self.symbols@[i]));
                    }
                }
                hi = mid;
            }
        }
        lo
    }

    /// The symbol of the last entry that starts at or below `addr`, when
    /// `addr` is below its end.
    pub fn find_symbol_containing(&self, addr: u64) -> (r: Option<SymbolInfo>)
        ensures
            match containing_index(self.entries(), addr) {
                Some(i) => r matches Some(s) && plain_symbol_of(s, self.entries()[i]),
                None => r is None,
            },
    {
        proof {
            use_type_invariant(self);
        }
        let idx = self.count_at_or_below(addr);
        proof {
            lemma_last_at_or_below(self.entries(), addr, idx as int);
        }
        if idx == 0 {
            return None;
        }
        let e = &self.symbols[idx - 1];
        if addr >= e.start_addr && addr < e.end_addr {
            Some(SymbolInfo::new(e.name.clone(), e.start_addr, e.size))
        } else {
            None
        }
    }

    /// The symbol for an address (see `resolve`), with the source file and
    /// line that the line tables of the file's bytes give for it (see
    /// `line_location`); the line tables are looked up only where a symbol
    /// is found.
    pub fn resolve_in_file(&self, bytes: &[u8], addr: u64) -> (r: Option<SymbolInfo>)
        ensures
            match resolved_index(self.entries(), addr) {
                Some(i) => r matches Some(s) && symbol_of(s, self.entries()[i]) && match line_location(
                    bytes@,
                    addr,
                ) {
                    Some((f, l)) => s.source_file matches Some(x) && x@ == f && s.line == Some(l),
                    None => s.source_file is None && s.line is None,
                },
                None => r is None,
            },
    {
        match self.resolve(addr, None) {
            None => None,
            Some(_) => self.resolve(addr, find_line_location(bytes, addr)),
        }
    }

    /// The symbol for an address: the first entry that starts at it, else
    /// the one that contains it (see `find_symbol_containing`), with the
    /// source location when one is given.
    pub fn resolve(&self, addr: u64, location: Option<(String, u32)>) -> (r: Option<SymbolInfo>)
        ensures
            match resolved_index(self.entries(), addr) {
                Some(i) => r matches Some(s) && symbol_of(s, self.entries()[i]) && match location {
                    Some((f, l)) => s.source_file matches Some(x) && x@ == f@ && s.line == Some(l),
                    None => s.source_file is None && s.line is None,
                },
                None => r is None,
            },
    {
        proof {
            use_type_invariant(self);
        }
        let idx = self.count_below(addr);
        proof {
            lemma_first_at(self.entries(), addr, idx as int);
        }
        let found = if idx < self.symbols.len() && self.symbols[idx].start_addr == addr {
            let e = &self.symbols[idx];
            Some(SymbolInfo::new(e.name.clone(), e.start_addr, e.size))
        } else {
            self.find_symbol_containing(addr)
        };
        match found {
            Some(info) => match location {
                Some((f, l)) => Some(info.with_source(f, l)),
                None => Some(info),
            },
            None => None,
        }
    }
}

/// The last entry that starts at or below `addr`.
pub open spec fn last_at_or_below(s: Seq<SymbolEntry>, addr: u64) -> Option<int>
    decreases s.len(),
{
    if s.len() == 0 {
        None
    } else if s.last().start_addr <= addr {
        Some(s.len() - 1)
    } else {
        last_at_or_below(s.drop_last(), addr)
    }
}

/// The first entry that starts at `addr`.
pub open spec fn first_at(s: Seq<SymbolEntry>, addr: u64) -> Option<int>
    decreases s.len(),
{
    if s.len() == 0 {
        None
    } else {
        match first_at(s.drop_last(), addr) {
            Some(i) => Some(i),
            None => if s.last().start_addr == addr {
                Some(s.len() - 1)
            } else {
                None
            },
        }
    }
}

proof fn lemma_last_at_or_below(s: Seq<SymbolEntry>, addr: u64, n: int)
    requires
        0 <= n <= s.len(),
        forall|i: int| 0 <= i < n ==> (#[trigger] s[i]).start_addr <= addr,
        forall|i: int| n <= i < s.len() ==> (#[trigger] s[i]).start_addr > addr,
    ensures
        last_at_or_below(s, addr) == (if n == 0 {
            None
        } else {
            Some(n - 1)
        }),
    decreases s.len(),
{
    if s.len() > 0 && n < s.len() {
        assert(s.last() == s[s.len() - 1]);
        lemma_last_at_or_below(s.drop_last(), addr, n);
    } else if s.len() > 0 {
        assert(s.last() == s[s.len() - 1]);
    }
}

proof fn lemma_first_at(s: Seq<SymbolEntry>, addr: u64, n: int)
    requires
        0 <= n <= s.len(),
        ranked_sorted(s),
        forall|i: int| 0 <= i < n ==> (#[trigger] s[i]).start_addr < addr,
        forall|i: int| n <= i < s.len() ==> (#[trigger] s[i]).start_addr >= addr,
    ensures
        first_at(s, addr) == (if n < s.len() && s[n].start_addr == addr {
            Some(n)
        } else {
            None::<int>
        }),
    decreases s.len(),
{
    if s.len() > 0 {
        let t = s.drop_last();
        assert(ranked_sorted(t)) by {
            assert forall|i: int, j: int| 0 <= i < j < t.len() implies (#[trigger] t[i]).ranks_before(
                #[trigger] t[j],
            ) by {
                assert(t[i] == s[i] && t[j] == s[j]);
            }
        }
        if n < s.len() {
            lemma_first_at(t, addr, n);
            if n < t.len() {
                assert(t[n] == s[n]);
                assert(s[n].ranks_before(s[s.len() - 1]));
            }
        } else {
            lemma_first_at(t, addr, n - 1);
            if n - 1 < t.len() {
                assert(t[n - 1] == s[n - 1]);
            }
        }
    }
}

/// The last entry that starts at or below `addr`, when `addr` is below its
/// end.
pub open spec fn containing_index(s: Seq<SymbolEntry>, addr: u64) -> Option<int> {
    match last_at_or_below(s, addr) {
        Some(i) => if addr < s[i].end_addr {
            Some(i)
        } else {
            None
        },
        None => None,
    }
}

/// The first entry that starts at `addr`, else `containing_index`.
pub open spec fn resolved_index(s: Seq<SymbolEntry>, addr: u64) -> Option<int> {
    match first_at(s, addr) {
        Some(i) => Some(i),
        None => containing_index(s, addr),
    }
}

/// Whether a symbol is the one of an entry, with no source location.
pub open spec fn plain_symbol_of(s: SymbolInfo, e: SymbolEntry) -> bool {
    symbol_of(s, e) && s.source_file is None && s.line is None
}

/// Whether a symbol is the one of an entry.
pub open spec fn symbol_of(s: SymbolInfo, e: SymbolEntry) -> bool {
    s.name@ == e.name@ && s.start_addr == e.start_addr && s.size == e.size
}

} // verus!
