//! Reports: per-address statistics and the call graph built from samples.

use vstd::prelude::*;
use std::collections::HashMap;
use vstd::std_specs::iter::IteratorSpec;
use crate::order::Ranked;
use crate::commands::script::{file_name_chars, file_name_of, opt_string_view, push_source_location};
use crate::perf_core::perf_data::SampleEvent;
use crate::symbols::SymbolInfo;
use crate::text::{chars_to_string, str_to_chars};

verus! {

broadcast use vstd::std_specs::hash::group_hash_axioms;

/// A symbol as `report` prints it: its name, then ` (file:line)` where
/// the source location is known.
pub open spec fn report_symbol_text(name: Seq<char>, file: Option<Seq<char>>, line: Option<u32>) -> Seq<
    char,
> {
    match (file, line) {
        (Some(f), Some(l)) => name + " ("@ + file_name_of(f) + ":"@ + crate::text::fmt_dec(l as nat)
            + ")"@,
        _ => name,
    }
}

pub fn format_symbol_with_source(info: &SymbolInfo) -> (r: String)
    ensures
        r@ == report_symbol_text(info.name@, opt_string_view(info.source_file), info.line),
{
    let mut v = str_to_chars(info.name.as_str());
    push_source_location(&mut v, &info.source_file, info.line);
    chars_to_string(v.as_slice())
}

/// An address as `report` prints it: by its symbol (see
/// `format_symbol_with_source`) when one was resolved, else in hex.
pub fn format_resolved(addr: u64, symbol: Option<&SymbolInfo>) -> (r: String)
    ensures
        r@ == match symbol {
            Some(info) => report_symbol_text(info.name@, opt_string_view(info.source_file), info.line),
            None => crate::commands::script::address_text(addr),
        },
{
    match symbol {
        Some(info) => format_symbol_with_source(info),
        None => crate::commands::script::format_resolved(addr, None),
    }
}

/// A shared object as the report's column shows it: its file name, cut
/// to `...` and the last fifteen characters when longer than eighteen.
pub open spec fn short_object_text(path: Seq<char>) -> Seq<char> {
    let f = file_name_of(path);
    if f.len() > 18 {
        "..."@ + f.subrange(f.len() - 15, f.len() as int)
    } else {
        f
    }
}

pub fn short_object_name(path: &str) -> (r: String)
    ensures
        r@ == short_object_text(path@),
{
    let f = file_name_chars(path);
    let n: usize = f.len();
    if n > 18 {
        let mut v: Vec<char> = Vec::new();
        crate::text::push_str(&mut v, "...");
        let tail = crate::text::sub_chars(f.as_slice(), n - 15, n);
        crate::text::push_all(&mut v, tail.as_slice());
        chars_to_string(v.as_slice())
    } else {
        chars_to_string(f.as_slice())
    }
}

/// What the samples say of one address.
#[derive(Debug, Clone)]
pub struct FunctionStats {
    /// Samples taken at this address.
    pub self_count: u64,
    pub self_period: u64,
    /// Samples at this address or with it among the callers.
    pub total_count: u64,
    pub total_period: u64,
    /// Times the address appeared as a caller.
    pub callchain_hits: u64,
    pub pid: u32,
    pub tid: u32,
    pub shared_object: Option<String>,
    pub comm: Option<String>,
}

/// Statistics as plain values.
pub ghost struct StatsView {
    pub self_count: u64,
    pub self_period: u64,
    pub total_count: u64,
    pub total_period: u64,
    pub callchain_hits: u64,
    pub pid: u32,
    pub tid: u32,
    pub shared_object: Option<Seq<char>>,
    pub comm: Option<Seq<char>>,
}

impl View for FunctionStats {
    type V = StatsView;

    open spec fn view(&self) -> StatsView {
        StatsView {
            self_count: self.self_count,
            self_period: self.self_period,
            total_count: self.total_count,
            total_period: self.total_period,
            callchain_hits: self.callchain_hits,
            pid: self.pid,
            tid: self.tid,
            shared_object: opt_string_view(self.shared_object),
            comm: opt_string_view(self.comm),
        }
    }
}

pub open spec fn default_stats() -> StatsView {
    StatsView {
        self_count: 0,
        self_period: 0,
        total_count: 0,
        total_period: 0,
        callchain_hits: 0,
        pid: 0,
        tid: 0,
        shared_object: None,
        comm: None,
    }
}

impl Default for FunctionStats {
    fn default() -> (s: Self)
        ensures
            s@ == default_stats(),
    {
        FunctionStats {
            self_count: 0,
            self_period: 0,
            total_count: 0,
            total_period: 0,
            callchain_hits: 0,
            pid: 0,
            tid: 0,
            shared_object: None,
            comm: None,
        }
    }
}

/// A call from `caller` to `callee`.
#[derive(Debug, Clone, Copy, Hash, PartialEq, Eq, Structural)]
pub struct CallEdge {
    pub caller: u64,
    pub callee: u64,
}

/// A mapped file: where it starts, how long it is, its name.
#[derive(Debug, Clone)]
pub struct MmapInfo {
    pub addr: u64,
    pub len: u64,
    pub filename: String,
}

/// `a + b` modulo 2^64.
pub open spec fn add_wrapping(a: u64, b: u64) -> u64 {
    if a + b > u64::MAX {
        (a + b - 0x1_0000_0000_0000_0000) as u64
    } else {
        (a + b) as u64
    }
}

/// The file of the first mapping that covers `addr`.
pub open spec fn mapping_of(mmaps: Seq<(u64, u64, Seq<char>)>, addr: u64) -> Option<Seq<char>>
    decreases mmaps.len(),
{
    if mmaps.len() == 0 {
        None
    } else if mmaps[0].0 <= addr && addr < mmaps[0].0 + mmaps[0].1 {
        Some(mmaps[0].2)
    } else {
        mapping_of(mmaps.drop_first(), addr)
    }
}

/// Statistics with the shared object and the process name filled in
/// where they are still unknown.
pub open spec fn fill_missing(s: StatsView, so: Option<Seq<char>>, comm: Option<Seq<char>>) -> StatsView {
    StatsView {
        shared_object: if s.shared_object is None {
            so
        } else {
            s.shared_object
        },
        comm: if s.comm is None {
            comm
        } else {
            s.comm
        },
        ..s
    }
}

/// A sample taken at the address itself.
pub open spec fn self_hit(s: StatsView, period: u64, pid: u32, tid: u32) -> StatsView {
    StatsView {
        self_count: add_wrapping(s.self_count, 1),
        self_period: add_wrapping(s.self_period, period),
        total_count: add_wrapping(s.total_count, 1),
        total_period: add_wrapping(s.total_period, period),
        pid,
        tid,
        ..s
    }
}

/// The address among the callers of a sample.
pub open spec fn caller_hit(s: StatsView, period: u64) -> StatsView {
    StatsView {
        callchain_hits: add_wrapping(s.callchain_hits, 1),
        total_count: add_wrapping(s.total_count, 1),
        total_period: add_wrapping(s.total_period, period),
        ..s
    }
}

pub open spec fn stats_at(m: Map<u64, StatsView>, a: u64) -> StatsView {
    if m.contains_key(a) {
        m[a]
    } else {
        default_stats()
    }
}

pub open spec fn count_at(m: Map<(u64, u64), u64>, k: (u64, u64)) -> u64 {
    if m.contains_key(k) {
        m[k]
    } else {
        0
    }
}

/// The statistics and edges after the first `k` entries of a call chain:
/// entry `i` is filled in, counted as a caller when `i > 0`, and called
/// from entry `i + 1` when there is one.
pub open spec fn chain_fold(
    funcs: Map<u64, StatsView>,
    edges: Map<(u64, u64), u64>,
    cc: Seq<u64>,
    k: int,
    period: u64,
    mmaps: Seq<(u64, u64, Seq<char>)>,
    comm: Option<Seq<char>>,
) -> (Map<u64, StatsView>, Map<(u64, u64), u64>)
    decreases k,
{
    if k <= 0 {
        (funcs, edges)
    } else {
        let (f, e) = chain_fold(funcs, edges, cc, k - 1, period, mmaps, comm);
        let i = k - 1;
        let addr = cc[i];
        let s0 = stats_at(f, addr);
        let s1 = if i > 0 {
            caller_hit(s0, period)
        } else {
            s0
        };
        let s2 = fill_missing(s1, mapping_of(mmaps, addr), comm);
        let e2 = if i + 1 < cc.len() {
            e.insert((cc[i + 1], addr), add_wrapping(count_at(e, (cc[i + 1], addr)), 1))
        } else {
            e
        };
        (f.insert(addr, s2), e2)
    }
}

/// The key under which an edge is counted.
pub open spec fn edge_key(caller: u64, callee: u64) -> u128 {
    (caller as u128 * 0x1_0000_0000_0000_0000 + callee as u128) as u128
}

proof fn lemma_edge_key_injective(a: u64, b: u64, c: u64, d: u64)
    ensures
        edge_key(a, b) == edge_key(c, d) ==> a == c && b == d,
{
    assert(edge_key(a, b) == edge_key(c, d) ==> a == c && b == d) by (nonlinear_arith)
        requires
            edge_key(a, b) == a as int * 0x1_0000_0000_0000_0000 + b as int,
            edge_key(c, d) == c as int * 0x1_0000_0000_0000_0000 + d as int,
    ;
}

proof fn lemma_edge_key_value(a: u64, b: u64)
    ensures
        edge_key(a, b) == a as int * 0x1_0000_0000_0000_0000 + b as int,
{
    assert(a as int * 0x1_0000_0000_0000_0000 + b as int <= u128::MAX) by (nonlinear_arith);
}

/// The statistics of every sampled address and the calls between them.
pub struct CallGraph {
    functions: HashMap<u64, FunctionStats>,
    edges: HashMap<u128, u64>,
    total_samples: u64,
    mmap_events: Vec<MmapInfo>,
    comm_map: HashMap<u32, String>,
}

pub open spec fn mmaps_view(s: Seq<MmapInfo>) -> Seq<(u64, u64, Seq<char>)> {
    s.map_values(|m: MmapInfo| (m.addr, m.len, m.filename@))
}

impl CallGraph {
    /// Statistics by address.
    pub closed spec fn functions_view(&self) -> Map<u64, StatsView> {
        self.functions@.map_values(|s: FunctionStats| s@)
    }

    /// How many times each call was seen, by (caller, callee).
    pub closed spec fn edges_view(&self) -> Map<(u64, u64), u64> {
        Map::new(
            |k: (u64, u64)| self.edges@.contains_key(edge_key(k.0, k.1)),
            |k: (u64, u64)| self.edges@[edge_key(k.0, k.1)],
        )
    }

    pub closed spec fn samples(&self) -> u64 {
        self.total_samples
    }

    /// The mapped files, in the order they were added.
    pub closed spec fn mmaps(&self) -> Seq<(u64, u64, Seq<char>)> {
        mmaps_view(self.mmap_events@)
    }

    /// Process names by process ID.
    pub closed spec fn comms(&self) -> Map<u32, Seq<char>> {
        self.comm_map@.map_values(|s: String| s@)
    }

    /// An empty graph.
    pub fn new() -> (g: Self)
        ensures
            g.functions_view() == Map::<u64, StatsView>::empty(),
            g.edges_view() == Map::<(u64, u64), u64>::empty(),
            g.samples() == 0,
            g.mmaps() == Seq::<(u64, u64, Seq<char>)>::empty(),
            g.comms() == Map::<u32, Seq<char>>::empty(),
    {
        let g = CallGraph {
            functions: HashMap::new(),
            edges: HashMap::new(),
            total_samples: 0,
            mmap_events: Vec::new(),
            comm_map: HashMap::new(),
        };
        assert(g.functions_view() =~= Map::<u64, StatsView>::empty());
        assert(g.edges_view() =~= Map::<(u64, u64), u64>::empty());
        assert(g.mmaps() =~= Seq::<(u64, u64, Seq<char>)>::empty());
        assert(g.comms() =~= Map::<u32, Seq<char>>::empty());
        g
    }

    /// How many samples were added.
    pub fn total_samples(&self) -> (r: u64)
        ensures
            r == self.samples(),
    {
        self.total_samples
    }

    /// How many addresses have statistics.
    pub fn function_count(&self) -> (r: usize)
        ensures
            r == self.functions_view().len(),
    {
        proof {
            assert(self.functions_view().dom() =~= self.functions@.dom());
        }
        self.functions.len()
    }

    /// How many distinct calls were seen.
    pub fn edge_count(&self) -> (r: usize)
        ensures
            r == self.edge_keys().len(),
    {
        self.edges.len()
    }

    pub closed spec fn edge_keys(&self) -> Set<u128> {
        self.edges@.dom()
    }

    /// The statistics of an address.
    pub fn function_stats(&self, addr: u64) -> (r: Option<&FunctionStats>)
        ensures
            match r {
                Some(s) => self.functions_view().contains_key(addr) && s@ == self.functions_view()[addr],
                None => !self.functions_view().contains_key(addr),
            },
    {
        self.functions.get(&addr)
    }

    /// How many times `caller` was seen calling `callee`.
    pub fn edge_count_for(&self, caller: u64, callee: u64) -> (r: u64)
        ensures
            r == count_at(self.edges_view(), (caller, callee)),
    {
        let key: u128 = (caller as u128) * 0x1_0000_0000_0000_0000 + callee as u128;
        proof {
            lemma_edge_key_value(caller, callee);
        }
        match self.edges.get(&key) {
            Some(c) => *c,
            None => 0,
        }
    }

    /// Records a mapped file.
    pub fn add_mmap(&mut self, addr: u64, len: u64, filename: String)
        ensures
            final(self).mmaps() == old(self).mmaps().push((addr, len, filename@)),
            final(self).functions_view() == old(self).functions_view(),
            final(self).edges_view() == old(self).edges_view(),
            final(self).samples() == old(self).samples(),
            final(self).comms() == old(self).comms(),
    {
        self.mmap_events.push(MmapInfo { addr, len, filename });
        assert(self.mmaps() =~= old(self).mmaps().push((addr, len, filename@)));
    }

    /// Records the name of a process.
    pub fn add_comm(&mut self, pid: u32, comm: String)
        ensures
            final(self).comms() == old(self).comms().insert(pid, comm@),
            final(self).mmaps() == old(self).mmaps(),
            final(self).functions_view() == old(self).functions_view(),
            final(self).edges_view() == old(self).edges_view(),
            final(self).samples() == old(self).samples(),
    {
        let ghost c = comm@;
        self.comm_map.insert(pid, comm);
        assert(self.comms() =~= old(self).comms().insert(pid, c));
    }

    /// The file of the first recorded mapping that covers `addr`.
    pub fn find_shared_object(&self, addr: u64) -> (r: Option<String>)
        ensures
            opt_string_view(r) == mapping_of(self.mmaps(), addr),
    {
        let n: usize = self.mmap_events.len();
        let ghost ms = self.mmaps();
        let mut i: usize = 0;
        assert(ms.subrange(0, ms.len() as int) =~= ms);
        while i < n
            invariant
                0 <= i <= n,
                n == self.mmap_events@.len(),
                ms == self.mmaps(),
                ms.len() == n,
                mapping_of(ms, addr) == mapping_of(ms.subrange(i as int, n as int), addr),
            decreases n - i,
        {
            let ghost rest = ms.subrange(i as int, n as int);
            assert(rest[0] == ms[i as int]);
            assert(rest.drop_first() =~= ms.subrange(i + 1, n as int));
            let m = &self.mmap_events[i];
            if addr >= m.addr && addr - m.addr < m.len {
                return Some(m.filename.clone());
            }
            i = i + 1;
        }
        None
    }

    /// The recorded name of a process.
    pub fn get_comm(&self, pid: u32) -> (r: Option<String>)
        ensures
            opt_string_view(r) == (if self.comms().contains_key(pid) {
                Some(self.comms()[pid])
            } else {
                None::<Seq<char>>
            }),
    {
        match self.comm_map.get(&pid) {
            Some(c) => Some(c.clone()),
            None => None,
        }
    }

    fn take_stats(&mut self, addr: u64) -> (s: FunctionStats)
        ensures
            s@ == stats_at(old(self).functions_view(), addr),
            final(self).functions_view() == old(self).functions_view().remove(addr),
            final(self).edges@ == old(self).edges@,
            final(self).samples() == old(self).samples(),
            final(self).mmaps() == old(self).mmaps(),
            final(self).comms() == old(self).comms(),
    {
        let r = self.functions.remove(&addr);
        assert(self.functions_view() =~= old(self).functions_view().remove(addr));
        match r {
            Some(s) => s,
            None => FunctionStats::default(),
        }
    }

    fn put_stats(&mut self, addr: u64, s: FunctionStats)
        ensures
            final(self).functions_view() == old(self).functions_view().insert(addr, s@),
            final(self).edges@ == old(self).edges@,
            final(self).samples() == old(self).samples(),
            final(self).mmaps() == old(self).mmaps(),
            final(self).comms() == old(self).comms(),
    {
        let ghost sv = s@;
        self.functions.insert(addr, s);
        assert(self.functions_view() =~= old(self).functions_view().insert(addr, sv));
    }

    fn bump_edge(&mut self, caller: u64, callee: u64)
        ensures
            final(self).edges_view() == old(self).edges_view().insert(
                (caller, callee),
                add_wrapping(count_at(old(self).edges_view(), (caller, callee)), 1),
            ),
            final(self).functions_view() == old(self).functions_view(),
            final(self).samples() == old(self).samples(),
            final(self).mmaps() == old(self).mmaps(),
            final(self).comms() == old(self).comms(),
    {
        proof {
            lemma_edge_key_value(caller, callee);
        }
        let key: u128 = (caller as u128) * 0x1_0000_0000_0000_0000 + callee as u128;
        let c: u64 = match self.edges.get(&key) {
            Some(c) => *c,
            None => 0,
        };
        self.edges.insert(key, c.wrapping_add(1));
        assert(self.edges_view() =~= old(self).edges_view().insert(
            (caller, callee),
            add_wrapping(count_at(old(self).edges_view(), (caller, callee)), 1),
        )) by {
            assert forall|k: (u64, u64)| #[trigger] self.edges_view().contains_key(k) == old(self).edges_view().insert(
                (caller, callee),
                add_wrapping(count_at(old(self).edges_view(), (caller, callee)), 1),
            ).contains_key(k) by {
                lemma_edge_key_injective(k.0, k.1, caller, callee);
            }
            assert forall|k: (u64, u64)| self.edges_view().contains_key(k) implies #[trigger] self.edges_view()[k]
                == old(self).edges_view().insert(
                (caller, callee),
                add_wrapping(count_at(old(self).edges_view(), (caller, callee)), 1),
            )[k] by {
                lemma_edge_key_injective(k.0, k.1, caller, callee);
            }
        }
    }

    /// Adds a sample: the sampled address gains a sample and its period;
    /// each caller in the call chain gains a caller hit and the period;
    /// each call in the chain is counted; shared objects and process names
    /// are filled in where unknown. Counts wrap at 2^64.
    pub fn add_sample(&mut self, sample: &SampleEvent)
        ensures
            final(self).samples() == add_wrapping(old(self).samples(), 1),
            final(self).mmaps() == old(self).mmaps(),
            final(self).comms() == old(self).comms(),
            ({
                let comm = if old(self).comms().contains_key(sample.pid) {
                    Some(old(self).comms()[sample.pid])
                } else {
                    None::<Seq<char>>
                };
                let f0 = old(self).functions_view();
                let s = fill_missing(
                    self_hit(stats_at(f0, sample.ip), sample.period, sample.pid, sample.tid),
                    mapping_of(old(self).mmaps(), sample.ip),
                    comm,
                );
                let f1 = f0.insert(sample.ip, s);
                let (f, e) = chain_fold(
                    f1,
                    old(self).edges_view(),
                    sample.callchain@,
                    sample.callchain@.len() as int,
                    sample.period,
                    old(self).mmaps(),
                    comm,
                );
                &&& final(self).functions_view() == f
                &&& final(self).edges_view() == e
            }),
    {
        self.total_samples = self.total_samples.wrapping_add(1);
        let shared_obj = self.find_shared_object(sample.ip);
        let comm = self.get_comm(sample.pid);
        let mut st = self.take_stats(sample.ip);
        st.self_count = st.self_count.wrapping_add(1);
        st.self_period = st.self_period.wrapping_add(sample.period);
        st.total_count = st.total_count.wrapping_add(1);
        st.total_period = st.total_period.wrapping_add(sample.period);
        st.pid = sample.pid;
        st.tid = sample.tid;
        if st.shared_object.is_none() {
            st.shared_object = shared_obj;
        }
        if st.comm.is_none() {
            st.comm = comm;
        }
        self.put_stats(sample.ip, st);
        assert(self.functions_view() =~= old(self).functions_view().remove(sample.ip).insert(sample.ip, st@));
        let ghost f1 = self.functions_view();
        let ghost e0 = self.edges_view();
        let ghost comm_v = opt_string_view(self.get_comm_spec(sample.pid));
        assert(comm_v == (if old(self).comms().contains_key(sample.pid) {
            Some(old(self).comms()[sample.pid])
        } else {
            None::<Seq<char>>
        }));
        assert(e0 =~= old(self).edges_view());
        assert(f1 =~= old(self).functions_view().insert(sample.ip, st@));
        assert(st@ == fill_missing(
            self_hit(stats_at(old(self).functions_view(), sample.ip), sample.period, sample.pid, sample.tid),
            mapping_of(old(self).mmaps(), sample.ip),
            comm_v,
        ));
        let cc = &sample.callchain;
        let n: usize = cc.len();
        let mut i: usize = 0;
        while i < n
            invariant
                0 <= i <= n,
                n == cc@.len(),
                self.mmaps() == old(self).mmaps(),
                self.comms() == old(self).comms(),
                self.samples() == add_wrapping(old(self).samples(), 1),
                comm_v == (if old(self).comms().contains_key(sample.pid) {
                    Some(old(self).comms()[sample.pid])
                } else {
                    None::<Seq<char>>
                }),
                (self.functions_view(), self.edges_view()) == chain_fold(
                    f1,
                    e0,
                    cc@,
                    i as int,
                    sample.period,
                    old(self).mmaps(),
                    comm_v,
                ),
            decreases n - i,
        {
            let addr = cc[i];
            let shared_obj = self.find_shared_object(addr);
            let comm = self.get_comm(sample.pid);
            let mut st = self.take_stats(addr);
            if i > 0 {
                st.callchain_hits = st.callchain_hits.wrapping_add(1);
                st.total_count = st.total_count.wrapping_add(1);
                st.total_period = st.total_period.wrapping_add(sample.period);
            }
            if st.shared_object.is_none() {
                st.shared_object = shared_obj;
            }
            if st.comm.is_none() {
                st.comm = comm;
            }
            self.put_stats(addr, st);
            if i + 1 < n {
                self.bump_edge(cc[i + 1], addr);
            }
            proof {
                let ghost prev = chain_fold(f1, e0, cc@, i as int, sample.period, old(self).mmaps(), comm_v);
                assert(self.functions_view() =~= prev.0.remove(addr).insert(addr, st@));
                assert(prev.0.remove(addr).insert(addr, st@) =~= prev.0.insert(addr, st@));
            }
            i = i + 1;
        }
        assert(old(self).comms() == self.comms());
    }

    closed spec fn get_comm_spec(&self, pid: u32) -> Option<String> {
        if self.comm_map@.contains_key(pid) {
            Some(self.comm_map@[pid])
        } else {
            None
        }
    }
}

/// The field that functions are ordered by: sample counts for `sample`,
/// periods otherwise (the overhead is the period over the total).
pub open spec fn sort_key(s: StatsView, sort: Option<Seq<char>>) -> u64 {
    match sort {
        Some(f) => if f == "sample"@ {
            s.self_count
        } else {
            s.self_period
        },
        None => s.self_period,
    }
}

/// An address with its sort key, ranked by key, highest first.
pub struct KeyedAddr {
    pub addr: u64,
    pub key: u64,
}

impl Ranked for KeyedAddr {
    open spec fn ranks_before(self, other: Self) -> bool {
        self.key >= other.key
    }

    proof fn lemma_ranks_total(a: Self, b: Self) {
    }

    proof fn lemma_ranks_trans(a: Self, b: Self, c: Self) {
    }

    fn le(&self, other: &Self) -> (r: bool) {
        self.key >= other.key
    }
}

impl CallGraph {
    /// The addresses with statistics, highest sort key first (addresses
    /// with equal keys in no stated order), at most `top` of them.
    pub fn ranked_functions(&self, sort: Option<&str>, top: Option<usize>) -> (r: Vec<u64>)
        ensures
            exists|all: Seq<u64>|
                {
                    &&& all.no_duplicates()
                    &&& all.to_set() == self.functions_view().dom()
                    &&& forall|i: int, j: int|
                        0 <= i < j < all.len() ==> sort_key(
                            self.functions_view()[#[trigger] all[i]],
                            crate::commands::record::opt_str_view(sort),
                        ) >= sort_key(
                            self.functions_view()[#[trigger] all[j]],
                            crate::commands::record::opt_str_view(sort),
                        )
                    &&& r@ == match top {
                        Some(n) => if n < all.len() {
                            all.take(n as int)
                        } else {
                            all
                        },
                        None => all,
                    }
                },
    {
        let ghost fv = self.functions_view();
        let ghost sv = crate::commands::record::opt_str_view(sort);
        let by_samples = match sort {
            Some(f) => crate::text::chars_eq_str(crate::text::str_to_chars(f).as_slice(), "sample"),
            None => false,
        };
        assert(by_samples == (sv == Some("sample"@)));
        let mut keyed: Vec<KeyedAddr> = Vec::new();
        let ghost rem = vstd::std_specs::hash::spec_hash_map_iter(&self.functions).remaining();
        proof {
            vstd::std_specs::hash::axiom_spec_hash_map_iter(&self.functions);
        }
        for (addr, stats) in it: self.functions.iter()
            invariant
                keyed@.len() == it.index(),
                it.seq() == rem,
                fv == self.functions_view(),
                by_samples == (sv == Some("sample"@)),
                forall|k: u64| #[trigger] self.functions@.contains_key(k) ==> rem.contains((&k, &self.functions@[k])),
                forall|i: int| 0 <= i < rem.len() ==> self.functions@.contains_key(*(#[trigger] rem[i]).0)
                    && self.functions@[*rem[i].0] == *rem[i].1,
                forall|j: int|
                    0 <= j < keyed@.len() ==> (#[trigger] keyed@[j]).addr == *rem[j].0 && keyed@[j].key
                        == sort_key(fv[keyed@[j].addr], sv),
        {
            assert(it.seq()[it.index() as int] == (addr, stats));
            assert(self.functions@[*addr] == *stats);
            let key = if by_samples {
                stats.self_count
            } else {
                stats.self_period
            };
            keyed.push(KeyedAddr { addr: *addr, key });
        }
        assert(keyed@.len() == rem.len());
        let ghost f = |k: KeyedAddr| k.addr;
        let ghost addrs = keyed@.map_values(f);
        proof {
            assert(rem.no_duplicates());
            assert(addrs.no_duplicates()) by {
                assert forall|i: int, j: int| 0 <= i < addrs.len() && 0 <= j < addrs.len() && i != j implies addrs[i]
                    != addrs[j] by {
                    if addrs[i] == addrs[j] {
                        assert(keyed@[i].addr == *rem[i].0);
                        assert(keyed@[j].addr == *rem[j].0);
                        assert(*rem[i].1 == *rem[j].1);
                        assert(rem[i] == rem[j]);
                    }
                }
            }
            assert(addrs.to_set() =~= fv.dom()) by {
                assert forall|x: u64| addrs.to_set().contains(x) <==> fv.dom().contains(x) by {
                    if addrs.contains(x) {
                        let i = choose|i: int| 0 <= i < addrs.len() && addrs[i] == x;
                        assert(keyed@[i].addr == *rem[i].0);
                    }
                    if fv.dom().contains(x) {
                        assert(self.functions@.contains_key(x));
                        assert(rem.contains((&x, &self.functions@[x])));
                        let i = choose|i: int| 0 <= i < rem.len() && rem[i] == (&x, &self.functions@[x]);
                        assert(addrs[i] == x);
                    }
                }
            }
        }
        let ghost unsorted = keyed@;
        let sorted = crate::order::sort_ranked(keyed);
        let ghost all = sorted@.map_values(f);
        proof {
            broadcast use vstd::seq_lib::group_to_multiset_ensures;

            crate::order::lemma_map_multiset(sorted@, unsorted, f);
            addrs.lemma_multiset_has_no_duplicates();
            all.lemma_multiset_has_no_duplicates_conv();
            assert(all.to_set() =~= addrs.to_set()) by {
                assert forall|x: u64| all.to_set().contains(x) <==> addrs.to_set().contains(x) by {
                    vstd::seq_lib::to_multiset_contains(all, x);
                    vstd::seq_lib::to_multiset_contains(addrs, x);
                }
            }
            assert forall|i: int| 0 <= i < sorted@.len() implies (#[trigger] sorted@[i]).key == sort_key(
                fv[sorted@[i].addr],
                sv,
            ) by {
                vstd::seq_lib::to_multiset_contains(sorted@, sorted@[i]);
                vstd::seq_lib::to_multiset_contains(unsorted, sorted@[i]);
                assert(sorted@.contains(sorted@[i]));
                let j = choose|j: int| 0 <= j < unsorted.len() && unsorted[j] == sorted@[i];
            }
            assert forall|i: int, j: int| 0 <= i < j < all.len() implies sort_key(fv[#[trigger] all[i]], sv)
                >= sort_key(fv[#[trigger] all[j]], sv) by {
                assert(sorted@[i].ranks_before(sorted@[j]));
            }
        }
        let mut out: Vec<u64> = Vec::new();
        let mut i: usize = 0;
        let limit: usize = match top {
            Some(n) => if n < sorted.len() {
                n
            } else {
                sorted.len()
            },
            None => sorted.len(),
        };
        while i < limit
            invariant
                i <= limit <= sorted@.len(),
                all == sorted@.map_values(f),
                f == (|k: KeyedAddr| k.addr),
                out@ == all.subrange(0, i as int),
            decreases limit - i,
        {
            out.push(sorted[i].addr);
            i = i + 1;
            assert(out@ =~= all.subrange(0, i as int));
        }
        assert(all.len() == sorted@.len());
        proof {
            if limit == sorted@.len() {
                assert(all.subrange(0, limit as int) =~= all);
            }
        }
        out
    }
}

/// The addresses of keyed entries.
pub open spec fn keyed_addrs(s: Seq<KeyedAddr>) -> Seq<u64> {
    s.map_values(|k: KeyedAddr| k.addr)
}

fn split_edge_key(k: u128) -> (r: (u64, u64))
    ensures
        edge_key(r.0, r.1) == k,
{
    let caller = (k >> 64u128) as u64;
    let callee = (k & 0xffff_ffff_ffff_ffffu128) as u64;
    proof {
        lemma_edge_key_value(caller, callee);
        assert(k == (k >> 64u128) * 0x1_0000_0000_0000_0000u128 + (k & 0xffff_ffff_ffff_ffffu128)) by (bit_vector);
        assert((k >> 64u128) <= 0xffff_ffff_ffff_ffffu128) by (bit_vector);
        assert((k & 0xffff_ffff_ffff_ffffu128) <= 0xffff_ffff_ffff_ffffu128) by (bit_vector);
    }
    (caller, callee)
}

/// The calls that end in `addr` (when `into`) or start from it: the other
/// end of each.
pub open spec fn call_partners(edges: Map<(u64, u64), u64>, addr: u64, into: bool) -> Set<u64> {
    Set::new(
        |x: u64|
            if into {
                edges.contains_key((x, addr))
            } else {
                edges.contains_key((addr, x))
            },
    )
}

/// The call count between `addr` and a partner.
pub open spec fn call_count(edges: Map<(u64, u64), u64>, addr: u64, other: u64, into: bool) -> u64 {
    if into {
        count_at(edges, (other, addr))
    } else {
        count_at(edges, (addr, other))
    }
}

impl CallGraph {
    fn partners(&self, addr: u64, into: bool) -> (r: Vec<KeyedAddr>)
        ensures
            keyed_addrs(r@).no_duplicates(),
            keyed_addrs(r@).to_set() == call_partners(self.edges_view(), addr, into),
            forall|i: int|
                0 <= i < r@.len() ==> (#[trigger] r@[i]).key == call_count(self.edges_view(), addr, r@[i].addr, into),
    {
        let ghost ev = self.edges_view();
        let mut out: Vec<KeyedAddr> = Vec::new();
        let ghost rem = vstd::std_specs::hash::spec_hash_map_iter(&self.edges).remaining();
        proof {
            vstd::std_specs::hash::axiom_spec_hash_map_iter(&self.edges);
        }
        let ghost mut seen: Seq<u128> = Seq::empty();
        for (key, count) in it: self.edges.iter()
            invariant
                it.seq() == rem,
                rem.no_duplicates(),
                seen.len() == it.index(),
                ev == self.edges_view(),
                forall|j: int| 0 <= j < seen.len() ==> seen[j] == *(#[trigger] rem[j]).0,
                forall|k: u128| #[trigger] self.edges@.contains_key(k) ==> rem.contains((&k, &self.edges@[k])),
                forall|i: int| 0 <= i < rem.len() ==> self.edges@.contains_key(*(#[trigger] rem[i]).0)
                    && self.edges@[*rem[i].0] == *rem[i].1,
                forall|i: int|
                    0 <= i < out@.len() ==> (#[trigger] out@[i]).key == call_count(ev, addr, out@[i].addr, into)
                        && ev.contains_key(if into { (out@[i].addr, addr) } else { (addr, out@[i].addr) })
                        && seen.contains(if into { edge_key(out@[i].addr, addr) } else { edge_key(addr, out@[i].addr) }),
                forall|x: u64| #![trigger call_partners(ev, addr, into).contains(x)]
                    call_partners(ev, addr, into).contains(x) && seen.contains(
                        if into { edge_key(x, addr) } else { edge_key(addr, x) },
                    ) ==> keyed_addrs(out@).contains(x),
                keyed_addrs(out@).no_duplicates(),
        {
            let (caller, callee) = split_edge_key(*key);
            assert(it.seq()[it.index() as int] == (key, count));
            assert(self.edges@[*key] == *count);
            let ghost old_out = out@;
            let ghost old_seen = seen;
            proof {
                seen = seen.push(*key);
            }
            let matches = if into {
                callee == addr
            } else {
                caller == addr
            };
            if matches {
                let other = if into {
                    caller
                } else {
                    callee
                };
                proof {
                    assert(ev.contains_key((caller, callee)));
                    assert(ev[(caller, callee)] == *count);
                    assert(!keyed_addrs(old_out).contains(other)) by {
                        if keyed_addrs(old_out).contains(other) {
                            let i = choose|i: int| 0 <= i < old_out.len() && #[trigger] keyed_addrs(old_out)[i] == other;
                            assert(old_out[i].addr == other);
                            let kk = if into { edge_key(old_out[i].addr, addr) } else { edge_key(addr, old_out[i].addr) };
                            assert(kk == *key);
                            assert(old_seen.contains(kk));
                            let j = choose|j: int| 0 <= j < old_seen.len() && old_seen[j] == kk;
                            assert(*rem[j].0 == *key);
                            assert(*rem[old_seen.len() as int].0 == *key);
                            assert(rem[j] == rem[old_seen.len() as int]);
                            assert(false);
                        }
                    }
                }
                out.push(KeyedAddr { addr: other, key: *count });
                proof {
                    assert(keyed_addrs(out@) =~= keyed_addrs(old_out).push(other));
                }
            }
            proof {
                assert forall|i: int| 0 <= i < out@.len() implies seen.contains(
                    if into { edge_key(out@[i].addr, addr) } else { edge_key(addr, out@[i].addr) },
                ) by {
                    if i < old_out.len() {
                        assert(out@[i] == old_out[i]);
                        let j = choose|j: int| 0 <= j < old_seen.len() && old_seen[j] == (if into { edge_key(out@[i].addr, addr) } else { edge_key(addr, out@[i].addr) });
                        assert(seen[j] == old_seen[j]);
                    } else {
                        assert(seen[old_seen.len() as int] == *key);
                    }
                }
                assert forall|x: u64| #![trigger call_partners(ev, addr, into).contains(x)]
                    call_partners(ev, addr, into).contains(x) && seen.contains(
                        if into { edge_key(x, addr) } else { edge_key(addr, x) },
                    ) implies keyed_addrs(out@).contains(x) by {
                    let kx = if into { edge_key(x, addr) } else { edge_key(addr, x) };
                    let j = choose|j: int| 0 <= j < seen.len() && seen[j] == kx;
                    if j < old_seen.len() {
                        assert(old_seen[j] == kx);
                        assert(keyed_addrs(old_out).contains(x));
                        let i = choose|i: int| 0 <= i < old_out.len() && #[trigger] keyed_addrs(old_out)[i] == x;
                        assert(keyed_addrs(out@)[i] == x);
                    } else {
                        if into {
                            lemma_edge_key_injective(x, addr, caller, callee);
                        } else {
                            lemma_edge_key_injective(addr, x, caller, callee);
                        }
                        assert(keyed_addrs(out@)[out@.len() - 1] == x);
                    }
                }
            }
        }
        proof {
            assert(seen.len() == rem.len());
            assert forall|x: u64| #![trigger call_partners(ev, addr, into).contains(x)]
                call_partners(ev, addr, into).contains(x) implies keyed_addrs(out@).contains(x) by {
                let kx = if into { edge_key(x, addr) } else { edge_key(addr, x) };
                assert(self.edges@.contains_key(kx));
                assert(rem.contains((&kx, &self.edges@[kx])));
                let j = choose|j: int| 0 <= j < rem.len() && rem[j] == (&kx, &self.edges@[kx]);
                assert(seen[j] == kx);
            }
            assert(keyed_addrs(out@).to_set() =~= call_partners(ev, addr, into)) by {
                assert forall|x: u64| keyed_addrs(out@).to_set().contains(x) implies call_partners(ev, addr, into).contains(x) by {
                    let i = choose|i: int| 0 <= i < out@.len() && #[trigger] keyed_addrs(out@)[i] == x;
                    assert(out@[i].addr == x);
                }
            }
        }
        out
    }
}

/// Whether `r` lists, most frequent first, at most `limit` of the
/// partners of `addr` (see `call_partners`) with their call counts.
pub open spec fn ranked_partners_of(
    edges: Map<(u64, u64), u64>,
    addr: u64,
    into: bool,
    limit: usize,
    r: Seq<(u64, u64)>,
) -> bool {
    exists|all: Seq<u64>|
        {
            &&& all.no_duplicates()
            &&& all.to_set() == call_partners(edges, addr, into)
            &&& forall|i: int, j: int|
                0 <= i < j < all.len() ==> call_count(edges, addr, #[trigger] all[i], into) >= call_count(
                    edges,
                    addr,
                    #[trigger] all[j],
                    into,
                )
            &&& r.len() == (if limit < all.len() {
                limit as int
            } else {
                all.len() as int
            })
            &&& forall|i: int|
                0 <= i < r.len() ==> (#[trigger] r[i]) == (all[i], call_count(edges, addr, all[i], into))
        }
}

impl CallGraph {
    fn ranked_partners(&self, addr: u64, into: bool, limit: usize) -> (r: Vec<(u64, u64)>)
        ensures
            ranked_partners_of(self.edges_view(), addr, into, limit, r@),
    {
        let ghost ev = self.edges_view();
        let keyed = self.partners(addr, into);
        let ghost unsorted = keyed@;
        let ghost addrs = keyed_addrs(unsorted);
        let sorted = crate::order::sort_ranked(keyed);
        let ghost all = keyed_addrs(sorted@);
        proof {
            broadcast use vstd::seq_lib::group_to_multiset_ensures;

            crate::order::lemma_map_multiset(sorted@, unsorted, |k: KeyedAddr| k.addr);
            assert(keyed_addrs(sorted@) == sorted@.map_values(|k: KeyedAddr| k.addr));
            addrs.lemma_multiset_has_no_duplicates();
            all.lemma_multiset_has_no_duplicates_conv();
            assert(all.to_set() =~= addrs.to_set()) by {
                assert forall|x: u64| all.to_set().contains(x) <==> addrs.to_set().contains(x) by {
                    vstd::seq_lib::to_multiset_contains(all, x);
                    vstd::seq_lib::to_multiset_contains(addrs, x);
                }
            }
            assert forall|i: int| 0 <= i < sorted@.len() implies (#[trigger] sorted@[i]).key == call_count(
                ev,
                addr,
                sorted@[i].addr,
                into,
            ) by {
                vstd::seq_lib::to_multiset_contains(sorted@, sorted@[i]);
                vstd::seq_lib::to_multiset_contains(unsorted, sorted@[i]);
                assert(sorted@.contains(sorted@[i]));
                let j = choose|j: int| 0 <= j < unsorted.len() && unsorted[j] == sorted@[i];
            }
            assert forall|i: int, j: int| 0 <= i < j < all.len() implies call_count(ev, addr, #[trigger] all[i], into)
                >= call_count(ev, addr, #[trigger] all[j], into) by {
                assert(sorted@[i].ranks_before(sorted@[j]));
            }
        }
        let mut out: Vec<(u64, u64)> = Vec::new();
        let n: usize = if limit < sorted.len() {
            limit
        } else {
            sorted.len()
        };
        let mut i: usize = 0;
        while i < n
            invariant
                i <= n <= sorted@.len(),
                all == keyed_addrs(sorted@),
                out@.len() == i,
                forall|k: int| 0 <= k < sorted@.len() ==> (#[trigger] sorted@[k]).key == call_count(
                    ev,
                    addr,
                    sorted@[k].addr,
                    into,
                ),
                forall|k: int| 0 <= k < i ==> (#[trigger] out@[k]) == (all[k], call_count(ev, addr, all[k], into)),
            decreases n - i,
        {
            out.push((sorted[i].addr, sorted[i].key));
            i = i + 1;
        }
        assert(all.len() == sorted@.len());
        out
    }

    /// The callers of `addr`, most frequent first, at most `limit` of
    /// them, each with its call count.
    pub fn callers_of(&self, addr: u64, limit: usize) -> (r: Vec<(u64, u64)>)
        ensures
            ranked_partners_of(self.edges_view(), addr, true, limit, r@),
    {
        self.ranked_partners(addr, true, limit)
    }

    /// The functions that `addr` calls, most frequent first, at most
    /// `limit` of them, each with its call count.
    pub fn callees_of(&self, addr: u64, limit: usize) -> (r: Vec<(u64, u64)>)
        ensures
            ranked_partners_of(self.edges_view(), addr, false, limit, r@),
    {
        self.ranked_partners(addr, false, limit)
    }
}

} // verus!
