//! The perf.data file layout: file header, event attributes, event
//! headers and a writer that lays out a file image.
//!
//! All integers are little-endian, except the magic, which is read as the
//! big-endian number of the eight bytes "PERFILE2".

use vstd::prelude::*;
use vstd::bytes::{
    spec_u16_from_le_bytes, spec_u16_to_le_bytes, spec_u32_from_le_bytes, spec_u32_to_le_bytes,
    spec_u64_from_le_bytes, spec_u64_to_le_bytes, lemma_auto_spec_u16_to_from_le_bytes,
    lemma_auto_spec_u32_to_from_le_bytes, lemma_auto_spec_u64_to_from_le_bytes,
};
use vstd::slice::slice_subrange;
use vstd::utf8::{
    char_is_scalar, char_u32_cast, decode_utf8, encode_scalar, encode_utf8, encode_utf8_decode_utf8, encode_utf8_valid_utf8,
    has_width_1_encoding, is_scalar, valid_utf8,
};
use crate::endian::{le_i32, le_u16, le_u32, le_u64, read_le_u16, read_le_u32, read_le_u64};
use crate::error::{IoErrorKind, PerfError};
use crate::text::{chars_to_string, fmt_dec, fmt_hex, dec_chars, hex_chars, pad_left, pad_left_chars, push_all, push_str, string_of};

verus! {

/// Magic number of perf.data files: the bytes "PERFILE2" read big-endian.
pub const PERF_FILE_MAGIC: u64 = 0x50455246494c4532;

/// Size of the file header in bytes.
pub const PERF_FILE_HEADER_SIZE: u64 = 104;

/// Size of `perf_event_attr` in its eighth revision.
pub const PERF_ATTR_SIZE_VER8: u32 = 136;

/// Size of an event header: type, misc and size, two bytes each.
pub const PERF_EVENT_HEADER_SIZE: u16 = 6;

/// Size of a FINISHED_ROUND record: an event header alone.
pub const PERF_FINISHED_ROUND_SIZE: u16 = 6;

pub const PERF_RECORD_MMAP: u16 = 1;
pub const PERF_RECORD_LOST: u16 = 2;
pub const PERF_RECORD_COMM: u16 = 3;
pub const PERF_RECORD_EXIT: u16 = 4;
pub const PERF_RECORD_THROTTLE: u16 = 5;
pub const PERF_RECORD_UNTHROTTLE: u16 = 6;
pub const PERF_RECORD_FORK: u16 = 7;
pub const PERF_RECORD_READ: u16 = 8;
pub const PERF_RECORD_SAMPLE: u16 = 9;
pub const PERF_RECORD_MMAP2: u16 = 10;
pub const PERF_RECORD_AUX: u16 = 11;
pub const PERF_RECORD_ITRACE_START: u16 = 12;
pub const PERF_RECORD_LOST_SAMPLES: u16 = 13;
pub const PERF_RECORD_SWITCH: u16 = 14;
pub const PERF_RECORD_SWITCH_CPU_WIDE: u16 = 15;
pub const PERF_RECORD_NAMESPACES: u16 = 16;
pub const PERF_RECORD_KSYMBOL: u16 = 17;
pub const PERF_RECORD_BPF_EVENT: u16 = 18;
pub const PERF_RECORD_CGROUP: u16 = 19;
pub const PERF_RECORD_TEXT_POKE: u16 = 20;
pub const PERF_RECORD_AUX_OUTPUT_HW_ID: u16 = 21;
pub const PERF_RECORD_CALLCHAIN_DEFERRED: u16 = 22;
pub const PERF_RECORD_HEADER_ATTR: u16 = 64;
pub const PERF_RECORD_HEADER_EVENT_TYPE: u16 = 65;
pub const PERF_RECORD_HEADER_TRACING_DATA: u16 = 66;
pub const PERF_RECORD_HEADER_BUILD_ID: u16 = 67;
pub const PERF_RECORD_FINISHED_ROUND: u16 = 68;
pub const PERF_RECORD_ID_INDEX: u16 = 69;
pub const PERF_RECORD_AUXTRACE_INFO: u16 = 70;
pub const PERF_RECORD_AUXTRACE: u16 = 71;
pub const PERF_RECORD_AUXTRACE_ERROR: u16 = 72;
pub const PERF_RECORD_HEADER_FEATURE: u16 = 80;
pub const PERF_RECORD_COMPRESSED: u16 = 81;
pub const PERF_RECORD_FINISHED_INIT: u16 = 82;
pub const PERF_RECORD_COMPRESSED2: u16 = 83;

// ---------------------------------------------------------------------
// Encodings

pub open spec fn le16(x: u16) -> Seq<u8> {
    spec_u16_to_le_bytes(x)
}

pub open spec fn le32(x: u32) -> Seq<u8> {
    spec_u32_to_le_bytes(x)
}

pub open spec fn le64(x: u64) -> Seq<u8> {
    spec_u64_to_le_bytes(x)
}

/// The number that bytes denote read big-endian.
pub open spec fn be_value(s: Seq<u8>) -> nat
    decreases s.len(),
{
    if s.len() == 0 {
        0
    } else {
        be_value(s.drop_last()) * 256 + s.last() as nat
    }
}

pub open spec fn pow256(n: nat) -> nat
    decreases n,
{
    if n == 0 {
        1
    } else {
        256 * pow256((n - 1) as nat)
    }
}

proof fn lemma_be_value_bound(s: Seq<u8>)
    ensures
        be_value(s) < pow256(s.len()),
    decreases s.len(),
{
    if s.len() > 0 {
        lemma_be_value_bound(s.drop_last());
        let x = be_value(s.drop_last());
        let p = pow256(s.drop_last().len());
        let y = s.last() as nat;
        assert(x * 256 + y < p * 256) by (nonlinear_arith)
            requires
                x < p,
                y < 256,
        ;
    }
}

/// The bytes "PERFILE2".
pub open spec fn magic_bytes() -> Seq<u8> {
    seq![0x50u8, 0x45u8, 0x52u8, 0x46u8, 0x49u8, 0x4cu8, 0x45u8, 0x32u8]
}

pub proof fn lemma_magic_value()
    ensures
        be_value(magic_bytes()) == PERF_FILE_MAGIC,
{
    let s = magic_bytes();
    assert(s.subrange(0, 0).len() == 0);
    assert(be_value(s.subrange(0, 0)) == 0);
    assert(s.subrange(0, 1).drop_last() =~= s.subrange(0, 0));
    assert(s.subrange(0, 1).last() == s[0]);
    assert(be_value(s.subrange(0, 1)) == 0x50);
    assert(s.subrange(0, 2).drop_last() =~= s.subrange(0, 1));
    assert(s.subrange(0, 2).last() == s[1]);
    assert(be_value(s.subrange(0, 2)) == 0x5045);
    assert(s.subrange(0, 3).drop_last() =~= s.subrange(0, 2));
    assert(s.subrange(0, 3).last() == s[2]);
    assert(be_value(s.subrange(0, 3)) == 0x504552);
    assert(s.subrange(0, 4).drop_last() =~= s.subrange(0, 3));
    assert(s.subrange(0, 4).last() == s[3]);
    assert(be_value(s.subrange(0, 4)) == 0x50455246);
    assert(s.subrange(0, 5).drop_last() =~= s.subrange(0, 4));
    assert(s.subrange(0, 5).last() == s[4]);
    assert(be_value(s.subrange(0, 5)) == 0x5045524649);
    assert(s.subrange(0, 6).drop_last() =~= s.subrange(0, 5));
    assert(s.subrange(0, 6).last() == s[5]);
    assert(be_value(s.subrange(0, 6)) == 0x50455246494c);
    assert(s.subrange(0, 7).drop_last() =~= s.subrange(0, 6));
    assert(s.subrange(0, 7).last() == s[6]);
    assert(be_value(s.subrange(0, 7)) == 0x50455246494c45);
    assert(s.subrange(0, 8).drop_last() =~= s.subrange(0, 7));
    assert(s.subrange(0, 8).last() == s[7]);
    assert(be_value(s.subrange(0, 8)) == 0x50455246494c4532);
    assert(s.subrange(0, 8) =~= s);
}

/// The big-endian number of the first eight bytes.
fn be_u64_prefix(b: &[u8]) -> (r: u64)
    requires
        b@.len() >= 8,
    ensures
        r == be_value(b@.subrange(0, 8)),
{
    let mut m: u64 = 0;
    let mut i: usize = 0;
    while i < 8
        invariant
            0 <= i <= 8,
            b@.len() >= 8,
            m == be_value(b@.subrange(0, i as int)),
        decreases 8 - i,
    {
        proof {
            lemma_be_value_bound(b@.subrange(0, i as int));
            reveal_with_fuel(pow256, 9);
            assert(pow256(i as nat) <= pow256(7));
            assert(b@.subrange(0, i as int + 1).drop_last() =~= b@.subrange(0, i as int));
        }
        m = m * 256 + b[i] as u64;
        i = i + 1;
    }
    m
}

fn push_bytes(out: &mut Vec<u8>, b: Vec<u8>)
    ensures
        final(out)@ == old(out)@ + b@,
{
    let mut b = b;
    out.append(&mut b);
}

fn u16_at(b: &[u8], off: usize) -> (r: u16)
    requires
        off + 2 <= b@.len(),
    ensures
        r == spec_u16_from_le_bytes(b@.subrange(off as int, off + 2)),
{
    let _n: usize = b.len();
    let s = slice_subrange(b, off, off + 2);
    assert(s@.subrange(0, 2) =~= b@.subrange(off as int, off + 2));
    read_le_u16(s)
}

fn u32_at(b: &[u8], off: usize) -> (r: u32)
    requires
        off + 4 <= b@.len(),
    ensures
        r == spec_u32_from_le_bytes(b@.subrange(off as int, off + 4)),
{
    let _n: usize = b.len();
    let s = slice_subrange(b, off, off + 4);
    assert(s@.subrange(0, 4) =~= b@.subrange(off as int, off + 4));
    read_le_u32(s)
}

fn u64_at(b: &[u8], off: usize) -> (r: u64)
    requires
        off + 8 <= b@.len(),
    ensures
        r == spec_u64_from_le_bytes(b@.subrange(off as int, off + 8)),
{
    let _n: usize = b.len();
    let s = slice_subrange(b, off, off + 8);
    assert(s@.subrange(0, 8) =~= b@.subrange(off as int, off + 8));
    read_le_u64(s)
}

/// The error that a read past the end of the input gives.
pub open spec fn is_eof_error(e: PerfError) -> bool {
    e matches PerfError::Io { kind, message } && kind == IoErrorKind::UnexpectedEof && message@
        == "failed to fill whole buffer"@
}

fn make_eof_error() -> (e: PerfError)
    ensures
        is_eof_error(e),
{
    PerfError::Io { kind: IoErrorKind::UnexpectedEof, message: string_of("failed to fill whole buffer") }
}

// ---------------------------------------------------------------------
// File header

/// A section of the file: where it starts and how long it is.
#[derive(Debug, Clone, Copy, PartialEq, Eq, Structural)]
pub struct PerfFileSection {
    pub offset: u64,
    pub size: u64,
}

pub open spec fn section_bytes(s: PerfFileSection) -> Seq<u8> {
    le64(s.offset) + le64(s.size)
}

impl PerfFileSection {
    /// Appends the 16 bytes of this section.
    pub fn write_to(&self, out: &mut Vec<u8>)
        ensures
            final(out)@ == old(out)@ + section_bytes(*self),
    {
        let mut v = le_u64(self.offset);
        push_bytes(&mut v, le_u64(self.size));
        push_bytes(out, v);
    }
}

impl Default for PerfFileSection {
    fn default() -> (s: Self)
        ensures
            s.offset == 0 && s.size == 0,
    {
        PerfFileSection { offset: 0, size: 0 }
    }
}

/// The file header: the first 104 bytes of a perf.data file.
#[derive(Debug, Clone)]
pub struct PerfFileHeader {
    pub magic: u64,
    pub size: u64,
    pub attr_size: u64,
    pub attrs: PerfFileSection,
    pub data: PerfFileSection,
    pub event_types: PerfFileSection,
    pub flags: u64,
    pub flags1: [u64; 3],
    /// Not part of the file format; kept at zero.
    pub sample_count: u64,
    /// Not part of the file format; kept at zero.
    pub mmap_count: u64,
    /// Not part of the file format; kept at zero.
    pub comm_count: u64,
}

/// The header of a fresh file: magic, header size and attribute size set,
/// everything else zero.
pub open spec fn is_default_header(h: PerfFileHeader) -> bool {
    &&& h.magic == PERF_FILE_MAGIC
    &&& h.size == PERF_FILE_HEADER_SIZE
    &&& h.attr_size == PERF_ATTR_SIZE_VER8 as u64
    &&& h.attrs == PerfFileSection { offset: 0, size: 0 }
    &&& h.data == PerfFileSection { offset: 0, size: 0 }
    &&& h.event_types == PerfFileSection { offset: 0, size: 0 }
    &&& h.flags == 0
    &&& h.flags1@ == seq![0u64, 0u64, 0u64]
    &&& h.sample_count == 0
    &&& h.mmap_count == 0
    &&& h.comm_count == 0
}

impl Default for PerfFileHeader {
    fn default() -> (h: Self)
        ensures
            is_default_header(h),
    {
        let h = PerfFileHeader {
            magic: PERF_FILE_MAGIC,
            size: PERF_FILE_HEADER_SIZE,
            attr_size: PERF_ATTR_SIZE_VER8 as u64,
            attrs: PerfFileSection { offset: 0, size: 0 },
            data: PerfFileSection { offset: 0, size: 0 },
            event_types: PerfFileSection { offset: 0, size: 0 },
            flags: 0,
            flags1: [0u64, 0u64, 0u64],
            sample_count: 0,
            mmap_count: 0,
            comm_count: 0,
        };
        assert(h.flags1@ =~= seq![0u64, 0u64, 0u64]);
        h
    }
}

/// The 104 bytes of a header as written: "PERFILE2" whatever the magic
/// field holds, then the fields in order.
pub open spec fn header_bytes(h: PerfFileHeader) -> Seq<u8> {
    magic_bytes() + le64(h.size) + le64(h.attr_size) + section_bytes(h.attrs) + section_bytes(
        h.data,
    ) + section_bytes(h.event_types) + le64(h.flags) + le64(h.flags1@[0]) + le64(h.flags1@[1])
        + le64(h.flags1@[2])
}

/// The little-endian number at a byte offset.
pub open spec fn u64_le_at(b: Seq<u8>, off: int) -> u64 {
    spec_u64_from_le_bytes(b.subrange(off, off + 8))
}

/// What a header read from `b` (at least 104 bytes) holds.
pub open spec fn header_read_from(b: Seq<u8>, h: PerfFileHeader) -> bool {
    &&& h.magic == be_value(b.subrange(0, 8))
    &&& h.size == u64_le_at(b, 8)
    &&& h.attr_size == u64_le_at(b, 16)
    &&& h.attrs == PerfFileSection { offset: u64_le_at(b, 24), size: u64_le_at(b, 32) }
    &&& h.data == PerfFileSection { offset: u64_le_at(b, 40), size: u64_le_at(b, 48) }
    &&& h.event_types == PerfFileSection { offset: u64_le_at(b, 56), size: u64_le_at(b, 64) }
    &&& h.flags == u64_le_at(b, 72)
    &&& h.flags1@ == seq![u64_le_at(b, 80), u64_le_at(b, 88), u64_le_at(b, 96)]
    &&& h.sample_count == 0
    &&& h.mmap_count == 0
    &&& h.comm_count == 0
}

/// The message of a header whose size field is wrong.
pub open spec fn header_size_message(size: u64) -> Seq<char> {
    "Invalid header size: expected 104, got "@ + fmt_dec(size as nat)
}

impl PerfFileHeader {
    /// Appends the 104 bytes of this header.
    pub fn write_to(&self, out: &mut Vec<u8>)
        ensures
            final(out)@ == old(out)@ + header_bytes(*self),
    {
        let mut v: Vec<u8> = Vec::new();
        v.push(0x50u8);
        v.push(0x45u8);
        v.push(0x52u8);
        v.push(0x46u8);
        v.push(0x49u8);
        v.push(0x4cu8);
        v.push(0x45u8);
        v.push(0x32u8);
        assert(v@ =~= magic_bytes());
        push_bytes(&mut v, le_u64(self.size));
        push_bytes(&mut v, le_u64(self.attr_size));
        push_bytes(&mut v, le_u64(self.attrs.offset));
        push_bytes(&mut v, le_u64(self.attrs.size));
        push_bytes(&mut v, le_u64(self.data.offset));
        push_bytes(&mut v, le_u64(self.data.size));
        push_bytes(&mut v, le_u64(self.event_types.offset));
        push_bytes(&mut v, le_u64(self.event_types.size));
        push_bytes(&mut v, le_u64(self.flags));
        push_bytes(&mut v, le_u64(self.flags1[0]));
        push_bytes(&mut v, le_u64(self.flags1[1]));
        push_bytes(&mut v, le_u64(self.flags1[2]));
        assert(v@ =~= header_bytes(*self));
        push_bytes(out, v);
    }

    /// Reads a header from the start of `b`; fails when `b` is shorter
    /// than a header.
    pub fn read_from(b: &[u8]) -> (r: Result<PerfFileHeader, PerfError>)
        ensures
            b@.len() < 104 ==> (r matches Err(e) && is_eof_error(e)),
            b@.len() >= 104 ==> (r matches Ok(h) && header_read_from(b@, h)),
    {
        if b.len() < 104 {
            return Err(make_eof_error());
        }
        let magic = be_u64_prefix(b);
        let flags1 = [u64_at(b, 80), u64_at(b, 88), u64_at(b, 96)];
        let h = PerfFileHeader {
            magic,
            size: u64_at(b, 8),
            attr_size: u64_at(b, 16),
            attrs: PerfFileSection { offset: u64_at(b, 24), size: u64_at(b, 32) },
            data: PerfFileSection { offset: u64_at(b, 40), size: u64_at(b, 48) },
            event_types: PerfFileSection { offset: u64_at(b, 56), size: u64_at(b, 64) },
            flags: u64_at(b, 72),
            flags1,
            sample_count: 0,
            mmap_count: 0,
            comm_count: 0,
        };
        assert(h.flags1@ =~= seq![u64_le_at(b@, 80), u64_le_at(b@, 88), u64_le_at(b@, 96)]);
        Ok(h)
    }

    /// Checks the magic and the header size.
    pub fn validate(&self) -> (r: Result<(), PerfError>)
        ensures
            self.magic != PERF_FILE_MAGIC ==> (r matches Err(PerfError::InvalidMagic { expected, actual })
                && expected@ == "PERFILE2"@ && actual@ == pad_left(fmt_hex(self.magic as nat), 16, '0')),
            self.magic == PERF_FILE_MAGIC && self.size != PERF_FILE_HEADER_SIZE ==> (r matches Err(
                PerfError::Io { kind, message },
            ) && kind == IoErrorKind::InvalidData && message@ == header_size_message(self.size)),
            self.magic == PERF_FILE_MAGIC && self.size == PERF_FILE_HEADER_SIZE ==> r is Ok,
    {
        if self.magic != PERF_FILE_MAGIC {
            let hex = hex_chars(self.magic);
            let padded = pad_left_chars(hex.as_slice(), 16, '0');
            return Err(
                PerfError::InvalidMagic {
                    expected: string_of("PERFILE2"),
                    actual: chars_to_string(padded.as_slice()),
                },
            );
        }
        if self.size != PERF_FILE_HEADER_SIZE {
            let mut v: Vec<char> = Vec::new();
            push_str(&mut v, "Invalid header size: expected 104, got ");
            let d = dec_chars(self.size);
            push_all(&mut v, d.as_slice());
            return Err(
                PerfError::Io { kind: IoErrorKind::InvalidData, message: chars_to_string(v.as_slice()) },
            );
        }
        Ok(())
    }
}

/// Reading back the bytes that a header writes gives the same header, with
/// the magic set to `PERF_FILE_MAGIC` and the counts not in the format at
/// zero.
pub proof fn lemma_header_roundtrip(h: PerfFileHeader, r: PerfFileHeader)
    requires
        header_read_from(header_bytes(h), r),
    ensures
        r.magic == PERF_FILE_MAGIC,
        r.size == h.size,
        r.attr_size == h.attr_size,
        r.attrs == h.attrs,
        r.data == h.data,
        r.event_types == h.event_types,
        r.flags == h.flags,
        r.flags1@ == h.flags1@,
        r.sample_count == 0 && r.mmap_count == 0 && r.comm_count == 0,
{
    lemma_auto_spec_u64_to_from_le_bytes();
    lemma_magic_value();
    let b = header_bytes(h);
    assert(b.subrange(0, 8) =~= magic_bytes());
    assert(b.subrange(8, 16) =~= le64(h.size));
    assert(b.subrange(16, 24) =~= le64(h.attr_size));
    assert(b.subrange(24, 32) =~= le64(h.attrs.offset));
    assert(b.subrange(32, 40) =~= le64(h.attrs.size));
    assert(b.subrange(40, 48) =~= le64(h.data.offset));
    assert(b.subrange(48, 56) =~= le64(h.data.size));
    assert(b.subrange(56, 64) =~= le64(h.event_types.offset));
    assert(b.subrange(64, 72) =~= le64(h.event_types.size));
    assert(b.subrange(72, 80) =~= le64(h.flags));
    assert(b.subrange(80, 88) =~= le64(h.flags1@[0]));
    assert(b.subrange(88, 96) =~= le64(h.flags1@[1]));
    assert(b.subrange(96, 104) =~= le64(h.flags1@[2]));
    assert(r.flags1@ =~= h.flags1@);
}

// ---------------------------------------------------------------------
// Event attributes

/// `perf_event_attr`: the configuration of one counter.
#[derive(Debug, Clone, Copy)]
pub struct PerfEventAttr {
    pub type_: u32,
    pub size: u32,
    pub config: u64,
    pub sample_period_or_freq: u64,
    pub sample_type: u64,
    pub read_format: u64,
    pub bitfields: u64,
    pub wakeup_events_or_watermark: u32,
    pub bp_type: u32,
    pub config1: u64,
    pub config2: u64,
    pub branch_sample_type: u64,
    pub sample_regs_user: u64,
    pub sample_stack_user: u32,
    pub clockid: i32,
    pub sample_regs_intr: u64,
    pub aux_watermark: u32,
    pub sample_max_stack: u16,
    pub _reserved_2: u16,
    pub aux_sample_size: u32,
    pub aux_action: u32,
    pub sig_data: u64,
    pub config3: u64,
    pub config4: u64,
}

/// The attribute of `new(type_, config, sample_type)`: size 136, clock
/// -1, the three given fields, zero elsewhere.
pub open spec fn attr_with(a: PerfEventAttr, type_: u32, config: u64, sample_type: u64) -> bool {
    &&& a.type_ == type_
    &&& a.size == PERF_ATTR_SIZE_VER8
    &&& a.config == config
    &&& a.sample_period_or_freq == 0
    &&& a.sample_type == sample_type
    &&& a.read_format == 0
    &&& a.bitfields == 0
    &&& a.wakeup_events_or_watermark == 0
    &&& a.bp_type == 0
    &&& a.config1 == 0
    &&& a.config2 == 0
    &&& a.branch_sample_type == 0
    &&& a.sample_regs_user == 0
    &&& a.sample_stack_user == 0
    &&& a.clockid == -1
    &&& a.sample_regs_intr == 0
    &&& a.aux_watermark == 0
    &&& a.sample_max_stack == 0
    &&& a._reserved_2 == 0
    &&& a.aux_sample_size == 0
    &&& a.aux_action == 0
    &&& a.sig_data == 0
    &&& a.config3 == 0
    &&& a.config4 == 0
}

impl Default for PerfEventAttr {
    fn default() -> (a: Self)
        ensures
            attr_with(a, 0, 0, 0),
    {
        PerfEventAttr::new(0, 0, 0)
    }
}

/// `bits` with bit `bit` set to `value`.
pub open spec fn with_bit(bits: u64, bit: u64, value: bool) -> u64 {
    if value {
        bits | (1u64 << bit)
    } else {
        bits & !(1u64 << bit)
    }
}

/// The 144 bytes that an attribute writes: its fields in order.
pub open spec fn attr_bytes(a: PerfEventAttr) -> Seq<u8> {
    le32(a.type_) + le32(a.size) + le64(a.config) + le64(a.sample_period_or_freq) + le64(
        a.sample_type,
    ) + le64(a.read_format) + le64(a.bitfields) + le32(a.wakeup_events_or_watermark) + le32(
        a.bp_type,
    ) + le64(a.config1) + le64(a.config2) + le64(a.branch_sample_type) + le64(a.sample_regs_user)
        + le32(a.sample_stack_user) + le32(a.clockid as u32) + le64(a.sample_regs_intr) + le32(
        a.aux_watermark,
    ) + le16(a.sample_max_stack) + le16(a._reserved_2) + le32(a.aux_sample_size) + le32(
        a.aux_action,
    ) + le64(a.sig_data) + le64(a.config3) + le64(a.config4)
}

impl PerfEventAttr {
    /// An attribute of the given type, config and sample type.
    pub fn new(type_: u32, config: u64, sample_type: u64) -> (a: Self)
        ensures
            attr_with(a, type_, config, sample_type),
    {
        PerfEventAttr {
            type_,
            size: PERF_ATTR_SIZE_VER8,
            config,
            sample_period_or_freq: 0,
            sample_type,
            read_format: 0,
            bitfields: 0,
            wakeup_events_or_watermark: 0,
            bp_type: 0,
            config1: 0,
            config2: 0,
            branch_sample_type: 0,
            sample_regs_user: 0,
            sample_stack_user: 0,
            clockid: -1,
            sample_regs_intr: 0,
            aux_watermark: 0,
            sample_max_stack: 0,
            _reserved_2: 0,
            aux_sample_size: 0,
            aux_action: 0,
            sig_data: 0,
            config3: 0,
            config4: 0,
        }
    }

    /// Samples every `period` events.
    pub fn with_sample_period(self, period: u64) -> (a: Self)
        ensures
            a == (PerfEventAttr { sample_period_or_freq: period, ..self }),
    {
        let mut a = self;
        a.sample_period_or_freq = period;
        a
    }

    /// Samples `freq` times a second: the frequency bit (11) is set.
    pub fn with_sample_freq(self, freq: u64) -> (a: Self)
        ensures
            a == (PerfEventAttr {
                sample_period_or_freq: freq,
                bitfields: with_bit(self.bitfields, 11, true),
                ..self
            }),
    {
        let mut a = self;
        a.sample_period_or_freq = freq;
        a.set_bitfield_bit(11, true);
        a
    }

    /// Sets or clears the sample-id-all bit (18).
    pub fn with_sample_id_all(self, enabled: bool) -> (a: Self)
        ensures
            a == (PerfEventAttr { bitfields: with_bit(self.bitfields, 18, enabled), ..self }),
    {
        let mut a = self;
        a.set_bitfield_bit(18, enabled);
        a
    }

    /// Sets or clears the comm bit (8).
    pub fn with_comm(self, enabled: bool) -> (a: Self)
        ensures
            a == (PerfEventAttr { bitfields: with_bit(self.bitfields, 8, enabled), ..self }),
    {
        let mut a = self;
        a.set_bitfield_bit(8, enabled);
        a
    }

    /// Sets or clears the mmap bit (7).
    pub fn with_mmap(self, enabled: bool) -> (a: Self)
        ensures
            a == (PerfEventAttr { bitfields: with_bit(self.bitfields, 7, enabled), ..self }),
    {
        let mut a = self;
        a.set_bitfield_bit(7, enabled);
        a
    }

    fn set_bitfield_bit(&mut self, bit: u64, value: bool)
        requires
            bit < 64,
        ensures
            *final(self) == (PerfEventAttr { bitfields: with_bit(old(self).bitfields, bit, value), ..*old(self) }),
    {
        if value {
            self.bitfields = self.bitfields | (1u64 << bit);
        } else {
            self.bitfields = self.bitfields & !(1u64 << bit);
        }
    }

    /// Appends the 144 bytes of this attribute.
    pub fn write_to(&self, out: &mut Vec<u8>)
        ensures
            final(out)@ == old(out)@ + attr_bytes(*self),
    {
        let mut v = le_u32(self.type_);
        push_bytes(&mut v, le_u32(self.size));
        push_bytes(&mut v, le_u64(self.config));
        push_bytes(&mut v, le_u64(self.sample_period_or_freq));
        push_bytes(&mut v, le_u64(self.sample_type));
        push_bytes(&mut v, le_u64(self.read_format));
        push_bytes(&mut v, le_u64(self.bitfields));
        push_bytes(&mut v, le_u32(self.wakeup_events_or_watermark));
        push_bytes(&mut v, le_u32(self.bp_type));
        push_bytes(&mut v, le_u64(self.config1));
        push_bytes(&mut v, le_u64(self.config2));
        push_bytes(&mut v, le_u64(self.branch_sample_type));
        push_bytes(&mut v, le_u64(self.sample_regs_user));
        push_bytes(&mut v, le_u32(self.sample_stack_user));
        push_bytes(&mut v, le_i32(self.clockid));
        push_bytes(&mut v, le_u64(self.sample_regs_intr));
        push_bytes(&mut v, le_u32(self.aux_watermark));
        push_bytes(&mut v, le_u16(self.sample_max_stack));
        push_bytes(&mut v, le_u16(self._reserved_2));
        push_bytes(&mut v, le_u32(self.aux_sample_size));
        push_bytes(&mut v, le_u32(self.aux_action));
        push_bytes(&mut v, le_u64(self.sig_data));
        push_bytes(&mut v, le_u64(self.config3));
        push_bytes(&mut v, le_u64(self.config4));
        push_bytes(out, v);
    }
}

pub proof fn lemma_attr_bytes_len(a: PerfEventAttr)
    ensures
        attr_bytes(a).len() == 144,
{
    lemma_auto_spec_u16_to_from_le_bytes();
    lemma_auto_spec_u32_to_from_le_bytes();
    lemma_auto_spec_u64_to_from_le_bytes();
}

// ---------------------------------------------------------------------
// Event records

/// The header of every event record.
#[derive(Debug, Clone, Copy, PartialEq, Eq, Structural)]
pub struct PerfEventHeader {
    pub type_: u16,
    pub misc: u16,
    pub size: u16,
}

pub open spec fn event_header_bytes(h: PerfEventHeader) -> Seq<u8> {
    le16(h.type_) + le16(h.misc) + le16(h.size)
}

impl PerfEventHeader {
    /// A header of the given type and record size, with no flags.
    pub fn new(type_: u16, size: u16) -> (h: Self)
        ensures
            h == (PerfEventHeader { type_, misc: 0, size }),
    {
        PerfEventHeader { type_, misc: 0, size }
    }

    /// The same header with the given flags.
    pub fn with_misc(self, misc: u16) -> (h: Self)
        ensures
            h == (PerfEventHeader { misc, ..self }),
    {
        PerfEventHeader { misc, ..self }
    }

    /// Appends the six bytes of this header.
    pub fn write_to(&self, out: &mut Vec<u8>)
        ensures
            final(out)@ == old(out)@ + event_header_bytes(*self),
    {
        let mut v = le_u16(self.type_);
        push_bytes(&mut v, le_u16(self.misc));
        push_bytes(&mut v, le_u16(self.size));
        push_bytes(out, v);
    }

    /// Reads a header from the start of `b`; fails when `b` holds fewer
    /// than six bytes.
    pub fn read_from(b: &[u8]) -> (r: Result<PerfEventHeader, PerfError>)
        ensures
            b@.len() < 6 ==> (r matches Err(e) && is_eof_error(e)),
            b@.len() >= 6 ==> r == Ok::<PerfEventHeader, PerfError>(
                PerfEventHeader {
                    type_: spec_u16_from_le_bytes(b@.subrange(0, 2)),
                    misc: spec_u16_from_le_bytes(b@.subrange(2, 4)),
                    size: spec_u16_from_le_bytes(b@.subrange(4, 6)),
                },
            ),
    {
        if b.len() < 6 {
            return Err(make_eof_error());
        }
        Ok(PerfEventHeader { type_: u16_at(b, 0), misc: u16_at(b, 2), size: u16_at(b, 4) })
    }
}

/// Reading back the six bytes that an event header writes gives the same
/// header.
pub proof fn lemma_event_header_roundtrip(h: PerfEventHeader)
    ensures
        ({
            let b = event_header_bytes(h);
            b.len() == 6 && (PerfEventHeader {
                type_: spec_u16_from_le_bytes(b.subrange(0, 2)),
                misc: spec_u16_from_le_bytes(b.subrange(2, 4)),
                size: spec_u16_from_le_bytes(b.subrange(4, 6)),
            }) == h
        }),
{
    lemma_auto_spec_u16_to_from_le_bytes();
    let b = event_header_bytes(h);
    assert(b.subrange(0, 2) =~= le16(h.type_));
    assert(b.subrange(2, 4) =~= le16(h.misc));
    assert(b.subrange(4, 6) =~= le16(h.size));
}

/// A FINISHED_ROUND record: no event is reordered across it.
#[derive(Debug, Clone, Copy)]
pub struct FinishedRoundEvent {
    pub header: PerfEventHeader,
}

impl FinishedRoundEvent {
    pub fn new() -> (e: Self)
        ensures
            e.header == (PerfEventHeader {
                type_: PERF_RECORD_FINISHED_ROUND,
                misc: 0,
                size: PERF_FINISHED_ROUND_SIZE,
            }),
    {
        FinishedRoundEvent {
            header: PerfEventHeader::new(PERF_RECORD_FINISHED_ROUND, PERF_FINISHED_ROUND_SIZE),
        }
    }

    /// Appends the record: its header alone.
    pub fn write_to(&self, out: &mut Vec<u8>)
        ensures
            final(out)@ == old(out)@ + event_header_bytes(self.header),
    {
        self.header.write_to(out);
    }

    /// Reads the record, its header alone, from the start of `b`; fails
    /// when `b` holds fewer than six bytes.
    pub fn read_from(b: &[u8]) -> (r: Result<FinishedRoundEvent, PerfError>)
        ensures
            b@.len() < 6 ==> (r matches Err(e) && is_eof_error(e)),
            b@.len() >= 6 ==> (r matches Ok(e) && e.header == (PerfEventHeader {
                type_: spec_u16_from_le_bytes(b@.subrange(0, 2)),
                misc: spec_u16_from_le_bytes(b@.subrange(2, 4)),
                size: spec_u16_from_le_bytes(b@.subrange(4, 6)),
            })),
    {
        match PerfEventHeader::read_from(b) {
            Ok(header) => Ok(FinishedRoundEvent { header }),
            Err(e) => Err(e),
        }
    }
}

// ---------------------------------------------------------------------
// Writer

/// Little-endian bytes of words, in order.
pub open spec fn words_le(ws: Seq<u64>) -> Seq<u8>
    decreases ws.len(),
{
    if ws.len() == 0 {
        Seq::empty()
    } else {
        words_le(ws.drop_last()) + le64(ws.last())
    }
}

/// The ID lists one after the other.
pub open spec fn flat_ids(ids: Seq<Vec<u64>>) -> Seq<u64>
    decreases ids.len(),
{
    if ids.len() == 0 {
        Seq::empty()
    } else {
        flat_ids(ids.drop_last()) + ids.last()@
    }
}


/// The flattened ID lists only grow along the lists.
proof fn lemma_flat_ids_grow(ids: Seq<Vec<u64>>, i: int)
    requires
        0 <= i < ids.len(),
    ensures
        flat_ids(ids.subrange(0, i + 1)).len() == flat_ids(ids.subrange(0, i)).len() + ids[i]@.len(),
        flat_ids(ids.subrange(0, i + 1)).len() <= flat_ids(ids).len(),
    decreases ids.len() - i,
{
    assert(ids.subrange(0, i + 1).drop_last() =~= ids.subrange(0, i));
    if i + 1 < ids.len() {
        lemma_flat_ids_grow(ids, i + 1);
    } else {
        assert(ids.subrange(0, i + 1) =~= ids);
    }
}

/// One entry of the attribute section: the attribute, then the offset and
/// the size of its ID list.
pub open spec fn attr_entry(a: PerfEventAttr, ids_offset: int, n_ids: int) -> Seq<u8> {
    attr_bytes(a) + le64(ids_offset as u64) + le64((n_ids * 8) as u64)
}

/// The first `k` entries of the attribute section, which starts at
/// `attrs_offset`. Offsets are counted at 152 bytes per entry (136 for the
/// attribute, 16 for the pair), although each attribute writes 144 bytes:
/// the ID offset of entry `i` is `attrs_offset + 152 * i + 136` plus 152
/// per ID list.
pub open spec fn attr_entries(
    attrs: Seq<PerfEventAttr>,
    ids: Seq<Vec<u64>>,
    attrs_offset: int,
    k: int,
) -> Seq<u8>
    decreases k,
{
    if k <= 0 {
        Seq::empty()
    } else {
        attr_entries(attrs, ids, attrs_offset, k - 1) + attr_entry(
            attrs[k - 1],
            attrs_offset + 152 * (k - 1) + 136 + 152 * ids.len(),
            ids[k - 1]@.len() as int,
        )
    }
}

pub open spec fn min_len(a: int, b: int) -> int {
    if a < b {
        a
    } else {
        b
    }
}

pub open spec fn zeros(n: nat) -> Seq<u8> {
    Seq::new(n, |i: int| 0u8)
}

/// `n` rounded up to a multiple of eight.
pub open spec fn round_up8(n: int) -> int {
    (n + 7) / 8 * 8
}

proof fn lemma_words_le_len(ws: Seq<u64>)
    ensures
        words_le(ws).len() == 8 * ws.len(),
    decreases ws.len(),
{
    lemma_auto_spec_u64_to_from_le_bytes();
    if ws.len() > 0 {
        lemma_words_le_len(ws.drop_last());
    }
}

proof fn lemma_flat_ids_len(ids: Seq<Vec<u64>>, j: int)
    requires
        0 <= j <= ids.len(),
    ensures
        flat_ids(ids.subrange(0, j)).len() <= flat_ids(ids).len(),
        j < ids.len() ==> flat_ids(ids.subrange(0, j)).len() + ids[j]@.len() <= flat_ids(ids).len(),
    decreases ids.len(),
{
    if ids.len() > 0 {
        if j == ids.len() {
            assert(ids.subrange(0, j) =~= ids);
        } else {
            lemma_flat_ids_len(ids.drop_last(), j);
            assert(ids.drop_last().subrange(0, j) =~= ids.subrange(0, j));
            if j + 1 == ids.len() {
                assert(ids.subrange(0, j) =~= ids.drop_last());
            } else {
                assert(ids.drop_last()[j] == ids[j]);
            }
        }
    }
}

proof fn lemma_attr_entries_len(attrs: Seq<PerfEventAttr>, ids: Seq<Vec<u64>>, ao: int, k: int)
    requires
        k >= 0,
    ensures
        attr_entries(attrs, ids, ao, k).len() == 160 * k,
    decreases k,
{
    lemma_auto_spec_u64_to_from_le_bytes();
    if k > 0 {
        lemma_attr_entries_len(attrs, ids, ao, k - 1);
        lemma_attr_bytes_len(attrs[k - 1]);
    }
}

/// Lays out a perf.data image in memory: the file header, the attribute
/// section, the ID lists and then the data section.
pub struct PerfDataWriter {
    out: Vec<u8>,
    header: PerfFileHeader,
    attrs_written: bool,
    data_start_offset: u64,
    data_size: u64,
}

/// Whether initializing a writer whose image is `start` bytes long with
/// these attributes and ID lists keeps every offset within `u64`.
pub open spec fn initialize_fits(start: int, attrs: Seq<PerfEventAttr>, ids: Seq<Vec<u64>>) -> bool {
    start + 104 + 160 * attrs.len() + 152 * ids.len() + 8 * flat_ids(ids).len() + 8 <= u64::MAX
}

/// The header that `initialize` writes.
pub open spec fn initialized_header(
    h: PerfFileHeader,
    attrs_offset: int,
    attrs_size: int,
    data_offset: int,
) -> PerfFileHeader {
    PerfFileHeader {
        attrs: PerfFileSection { offset: attrs_offset as u64, size: attrs_size as u64 },
        data: PerfFileSection { offset: data_offset as u64, size: 0 },
        ..h
    }
}

/// The error for a record too large for its size field or for the data
/// size.
pub open spec fn record_too_large_error(e: PerfError) -> bool {
    e matches PerfError::InvalidArgument { message } && message@ == "record too large"@
}

fn make_record_too_large_error() -> (e: PerfError)
    ensures
        record_too_large_error(e),
{
    PerfError::InvalidArgument { message: string_of("record too large") }
}

/// The message of the writer's and reader's unimplemented operations.
pub open spec fn unsupported_error(e: PerfError, msg: Seq<char>) -> bool {
    e matches PerfError::Io { kind, message } && kind == IoErrorKind::Unsupported && message@ == msg
}

/// The header that `finalize` writes: the writer's header with the data
/// size counted so far.
pub open spec fn finalized_header(w: PerfDataWriter) -> PerfFileHeader {
    PerfFileHeader {
        data: PerfFileSection { offset: w.header_spec().data.offset, size: w.data_size_spec() },
        ..w.header_spec()
    }
}

/// The bytes that `finalize` hands back: that header, then the image after
/// the first 104 bytes.
pub open spec fn finalized_bytes(w: PerfDataWriter) -> Seq<u8> {
    let rest = if w.image().len() > 104 {
        w.image().subrange(104, w.image().len() as int)
    } else {
        Seq::<u8>::empty()
    };
    header_bytes(finalized_header(w)) + rest
}

/// Reading a header back from the bytes that `finalize` hands back gives
/// the writer's header with the data size counted so far, with the magic
/// of the format.
pub proof fn lemma_finalized_header_reads_back(w: PerfDataWriter, r: PerfFileHeader)
    requires
        header_read_from(finalized_bytes(w), r),
    ensures
        r.magic == PERF_FILE_MAGIC,
        r.size == w.header_spec().size,
        r.attr_size == w.header_spec().attr_size,
        r.attrs == w.header_spec().attrs,
        r.data == (PerfFileSection { offset: w.header_spec().data.offset, size: w.data_size_spec() }),
        r.event_types == w.header_spec().event_types,
        r.flags == w.header_spec().flags,
        r.flags1@ == w.header_spec().flags1@,
{
    let h = finalized_header(w);
    let hb = header_bytes(h);
    let b = finalized_bytes(w);
    lemma_auto_spec_u64_to_from_le_bytes();
    assert(hb.len() == 104);
    assert(b.subrange(0, 104) =~= hb);
    assert forall|off: int| 0 <= off <= 96 implies #[trigger] b.subrange(off, off + 8) == hb.subrange(off, off + 8) by {
        assert(b.subrange(off, off + 8) =~= hb.subrange(off, off + 8));
    }
    assert(b.subrange(0, 8) =~= hb.subrange(0, 8));
    assert(header_read_from(hb, r));
    lemma_header_roundtrip(h, r);
}

impl PerfDataWriter {
    /// The bytes written so far.
    pub closed spec fn image(&self) -> Seq<u8> {
        self.out@
    }

    /// The header that the next header write will hold.
    pub closed spec fn header_spec(&self) -> PerfFileHeader {
        self.header
    }

    /// The size of the data section counted so far.
    pub closed spec fn data_size_spec(&self) -> u64 {
        self.data_size
    }

    /// Where the data section starts, once initialized.
    pub closed spec fn data_start_spec(&self) -> u64 {
        self.data_start_offset
    }

    pub closed spec fn initialized(&self) -> bool {
        self.attrs_written
    }

    /// Whether `initialize` with these attributes and ID lists keeps every
    /// offset of the file within `u64` (see `initialize_fits`).
    pub fn fits(&self, attrs: &[PerfEventAttr], ids: &[Vec<u64>]) -> (r: bool)
        ensures
            r == initialize_fits(self.image().len() as int, attrs@, ids@),
    {
        let max: u128 = 0xffff_ffff_ffff_ffff;
        let mut total: u128 = self.out.len() as u128 + 104 + 160 * (attrs.len() as u128) + 152 * (
        ids.len() as u128) + 8;
        let mut i: usize = 0;
        while i < ids.len()
            invariant
                i <= ids@.len(),
                max == u64::MAX,
                total <= max ==> total == self.image().len() + 104 + 160 * attrs@.len() + 152 * ids@.len() + 8
                    * flat_ids(ids@.subrange(0, i as int)).len() + 8,
                total > max ==> !initialize_fits(self.image().len() as int, attrs@, ids@),
            decreases ids@.len() - i,
        {
            proof {
                assert(ids@.subrange(0, i + 1).drop_last() =~= ids@.subrange(0, i as int));
                lemma_flat_ids_grow(ids@, i as int);
            }
            if total > max {
                return false;
            }
            total = total + 8 * (ids[i].len() as u128);
            i = i + 1;
        }
        assert(ids@.subrange(0, ids@.len() as int) =~= ids@);
        total <= max
    }

    /// A writer with an empty image and the default header.
    pub fn new() -> (w: Self)
        ensures
            w.image() == Seq::<u8>::empty(),
            is_default_header(w.header_spec()),
            w.data_size_spec() == 0,
            w.data_start_spec() == 0,
            !w.initialized(),
    {
        PerfDataWriter {
            out: Vec::new(),
            header: PerfFileHeader::default(),
            attrs_written: false,
            data_start_offset: 0,
            data_size: 0,
        }
    }

    /// Writes the file header, the attribute section (one entry per
    /// attribute that has an ID list) and the ID lists, then pads the
    /// image to a multiple of eight bytes, where the data section starts.
    pub fn initialize(&mut self, attrs: &[PerfEventAttr], ids: &[Vec<u64>]) -> (r: Result<(), PerfError>)
        requires
            initialize_fits(old(self).image().len() as int, attrs@, ids@),
        ensures
            r is Ok,
            ({
                let start = old(self).image().len() as int;
                let n = min_len(attrs@.len() as int, ids@.len() as int);
                let cur = start + 104 + 160 * n + 8 * flat_ids(ids@).len();
                let ds = round_up8(cur);
                let h = initialized_header(old(self).header_spec(), start + 104, 152 * n, ds);
                &&& final(self).header_spec() == h
                &&& final(self).image() == old(self).image() + header_bytes(h) + attr_entries(
                    attrs@,
                    ids@,
                    start + 104,
                    n,
                ) + words_le(flat_ids(ids@)) + zeros((ds - cur) as nat)
                &&& final(self).data_start_spec() == ds
                &&& final(self).data_size_spec() == old(self).data_size_spec()
                &&& final(self).initialized()
            }),
    {
        let start: u64 = self.out.len() as u64;
        let attrs_offset: u64 = start + 104;
        let n_attrs: usize = attrs.len();
        let n_ids: usize = ids.len();
        let n: usize = if n_attrs < n_ids { n_attrs } else { n_ids };
        let mut body: Vec<u8> = Vec::new();
        let mut attrs_size: u64 = 0;
        let mut i: usize = 0;
        while i < n
            invariant
                0 <= i <= n,
                n == min_len(attrs@.len() as int, ids@.len() as int),
                n_ids == ids@.len(),
                attrs_offset == start + 104,
                initialize_fits(start as int, attrs@, ids@),
                attrs_size == 152 * i,
                body@ == attr_entries(attrs@, ids@, attrs_offset as int, i as int),
            decreases n - i,
        {
            proof {
                lemma_flat_ids_len(ids@, i as int);
            }
            attrs[i].write_to(&mut body);
            attrs_size = attrs_size + 136;
            let ids_offset: u64 = attrs_offset + attrs_size + (n_ids as u64) * 152;
            let ids_len: usize = ids[i].len();
            let ids_size: u64 = (ids_len as u64) * 8;
            push_bytes(&mut body, le_u64(ids_offset));
            push_bytes(&mut body, le_u64(ids_size));
            attrs_size = attrs_size + 16;
            assert(body@ =~= attr_entries(attrs@, ids@, attrs_offset as int, i + 1));
            i = i + 1;
        }
        let mut idbytes: Vec<u8> = Vec::new();
        let mut j: usize = 0;
        while j < n_ids
            invariant
                0 <= j <= n_ids,
                n_ids == ids@.len(),
                idbytes@ == words_le(flat_ids(ids@.subrange(0, j as int))),
            decreases n_ids - j,
        {
            let v: &Vec<u64> = &ids[j];
            let m: usize = v.len();
            let ghost pre = flat_ids(ids@.subrange(0, j as int));
            let mut k: usize = 0;
            while k < m
                invariant
                    0 <= k <= m,
                    m == v@.len(),
                    idbytes@ == words_le(pre + v@.subrange(0, k as int)),
                decreases m - k,
            {
                assert((pre + v@.subrange(0, k as int + 1)).drop_last() =~= pre + v@.subrange(
                    0,
                    k as int,
                ));
                push_bytes(&mut idbytes, le_u64(v[k]));
                k = k + 1;
            }
            assert(ids@.subrange(0, j as int + 1).drop_last() =~= ids@.subrange(0, j as int));
            assert(pre + v@.subrange(0, m as int) =~= flat_ids(ids@.subrange(0, j as int + 1)));
            j = j + 1;
        }
        assert(ids@.subrange(0, n_ids as int) =~= ids@);
        proof {
            lemma_words_le_len(flat_ids(ids@));
            lemma_attr_entries_len(attrs@, ids@, attrs_offset as int, n as int);
        }
        let body_len: usize = body.len();
        let id_len: usize = idbytes.len();
        let cur: u64 = attrs_offset + body_len as u64 + id_len as u64;
        let ds: u64 = (cur + 7) / 8 * 8;
        let pad: u64 = ds - cur;
        let mut padding: Vec<u8> = Vec::new();
        let mut p: u64 = 0;
        while p < pad
            invariant
                0 <= p <= pad,
                padding@ == zeros(p as nat),
            decreases pad - p,
        {
            padding.push(0u8);
            p = p + 1;
            assert(padding@ =~= zeros(p as nat));
        }
        self.header.attrs.offset = attrs_offset;
        self.header.attrs.size = attrs_size;
        self.header.data.offset = ds;
        self.header.data.size = 0;
        self.data_start_offset = ds;
        self.header.write_to(&mut self.out);
        push_bytes(&mut self.out, body);
        push_bytes(&mut self.out, idbytes);
        push_bytes(&mut self.out, padding);
        self.attrs_written = true;
        Ok(())
    }

    /// Appends an event header; the data size grows by the record size it
    /// declares.
    pub fn write_event_header(&mut self, header: &PerfEventHeader) -> (r: Result<(), PerfError>)
        requires
            old(self).data_size_spec() + header.size <= u64::MAX,
        ensures
            r is Ok,
            final(self).image() == old(self).image() + event_header_bytes(*header),
            final(self).data_size_spec() == old(self).data_size_spec() + header.size,
            final(self).header_spec() == old(self).header_spec(),
            final(self).data_start_spec() == old(self).data_start_spec(),
            final(self).initialized() == old(self).initialized(),
    {
        header.write_to(&mut self.out);
        self.data_size = self.data_size + header.size as u64;
        Ok(())
    }

    /// The bytes of records written so far.
    pub fn data_size(&self) -> (r: u64)
        ensures
            r == self.data_size_spec(),
    {
        self.data_size
    }

    /// Appends a FINISHED_ROUND record; the data size grows by six.
    pub fn write_finished_round(&mut self) -> (r: Result<(), PerfError>)
        requires
            old(self).data_size_spec() + 6 <= u64::MAX,
        ensures
            r is Ok,
            final(self).image() == old(self).image() + event_header_bytes(
                PerfEventHeader { type_: PERF_RECORD_FINISHED_ROUND, misc: 0, size: 6 },
            ),
            final(self).data_size_spec() == old(self).data_size_spec() + 6,
            final(self).header_spec() == old(self).header_spec(),
            final(self).data_start_spec() == old(self).data_start_spec(),
            final(self).initialized() == old(self).initialized(),
    {
        let event = FinishedRoundEvent::new();
        event.write_to(&mut self.out);
        self.data_size = self.data_size + PERF_FINISHED_ROUND_SIZE as u64;
        Ok(())
    }

    /// Appends raw record bytes; the data size is left as it is.
    pub fn write_event_data(&mut self, data: &[u8]) -> (r: Result<(), PerfError>)
        ensures
            r is Ok,
            final(self).image() == old(self).image() + data@,
            final(self).data_size_spec() == old(self).data_size_spec(),
            final(self).header_spec() == old(self).header_spec(),
            final(self).data_start_spec() == old(self).data_start_spec(),
            final(self).initialized() == old(self).initialized(),
    {
        let ghost o = self.out@;
        let n: usize = data.len();
        let mut i: usize = 0;
        while i < n
            invariant
                0 <= i <= n,
                n == data@.len(),
                self.out@ == o + data@.subrange(0, i as int),
                self.data_size == old(self).data_size,
                self.header == old(self).header,
                self.data_start_offset == old(self).data_start_offset,
                self.attrs_written == old(self).attrs_written,
            decreases n - i,
        {
            self.out.push(data[i]);
            i = i + 1;
            assert(self.out@ =~= o + data@.subrange(0, i as int));
        }
        assert(data@.subrange(0, n as int) =~= data@);
        Ok(())
    }

    /// Appends a COMM record; the data size grows by its size. Fails, with
    /// the writer left as it was, when the record is too large for its size
    /// field or for the data size.
    pub fn write_comm(&mut self, comm: &CommEvent) -> (r: Result<(), PerfError>)
        ensures
            r is Ok <==> named_record_fits(14, comm.comm@) && old(self).data_size_spec()
                + named_record_size(14, comm.comm@) <= u64::MAX,
            r is Ok ==> final(self).image() == old(self).image() + comm_record_bytes(
                comm.pid,
                comm.tid,
                comm.comm@,
            ) && final(self).data_size_spec() == old(self).data_size_spec() + named_record_size(
                14,
                comm.comm@,
            ),
            r matches Err(e) ==> record_too_large_error(e) && *final(self) == *old(self),
            final(self).header_spec() == old(self).header_spec(),
            final(self).data_start_spec() == old(self).data_start_spec(),
            final(self).initialized() == old(self).initialized(),
    {
        match comm.record_size() {
            Some(size) => {
                if self.data_size > u64::MAX - size as u64 {
                    return Err(make_record_too_large_error());
                }
                comm.write_to(&mut self.out);
                self.data_size = self.data_size + size as u64;
                Ok(())
            },
            None => Err(make_record_too_large_error()),
        }
    }

    /// Appends an MMAP record; the data size grows by its size. Fails, with
    /// the writer left as it was, when the record is too large for its size
    /// field or for the data size.
    pub fn write_mmap(&mut self, mmap: &MmapEvent) -> (r: Result<(), PerfError>)
        ensures
            r is Ok <==> named_record_fits(38, mmap.filename@) && old(self).data_size_spec()
                + named_record_size(38, mmap.filename@) <= u64::MAX,
            r is Ok ==> final(self).image() == old(self).image() + mmap_record_bytes(
                mmap.pid,
                mmap.tid,
                mmap.addr,
                mmap.len,
                mmap.pgoff,
                mmap.filename@,
            ) && final(self).data_size_spec() == old(self).data_size_spec() + named_record_size(
                38,
                mmap.filename@,
            ),
            r matches Err(e) ==> record_too_large_error(e) && *final(self) == *old(self),
            final(self).header_spec() == old(self).header_spec(),
            final(self).data_start_spec() == old(self).data_start_spec(),
            final(self).initialized() == old(self).initialized(),
    {
        match mmap.record_size() {
            Some(size) => {
                if self.data_size > u64::MAX - size as u64 {
                    return Err(make_record_too_large_error());
                }
                mmap.write_to(&mut self.out);
                self.data_size = self.data_size + size as u64;
                Ok(())
            },
            None => Err(make_record_too_large_error()),
        }
    }

    /// Pads the image with zeros to a multiple of eight bytes; the padding
    /// counts toward the data size.
    pub fn align_to_8_bytes(&mut self) -> (r: Result<(), PerfError>)
        requires
            old(self).data_size_spec() + 7 <= u64::MAX,
        ensures
            r is Ok,
            ({
                let pad = (8 - old(self).image().len() % 8) % 8;
                &&& final(self).image() == old(self).image() + zeros(pad as nat)
                &&& final(self).data_size_spec() == old(self).data_size_spec() + pad
            }),
            final(self).header_spec() == old(self).header_spec(),
            final(self).data_start_spec() == old(self).data_start_spec(),
            final(self).initialized() == old(self).initialized(),
    {
        let len: usize = self.out.len();
        let pad: usize = (8 - len % 8) % 8;
        let ghost o = self.out@;
        let mut p: usize = 0;
        while p < pad
            invariant
                0 <= p <= pad,
                pad < 8,
                self.out@ == o + zeros(p as nat),
                self.data_size == old(self).data_size,
                self.header == old(self).header,
                self.data_start_offset == old(self).data_start_offset,
                self.attrs_written == old(self).attrs_written,
            decreases pad - p,
        {
            self.out.push(0u8);
            p = p + 1;
            assert(self.out@ =~= o + zeros(p as nat));
        }
        self.data_size = self.data_size + pad as u64;
        Ok(())
    }

    /// Rewrites the header at the start of the image, with the data size
    /// counted so far, and hands back the image.
    pub fn finalize(self) -> (r: Result<Vec<u8>, PerfError>)
        ensures
            r matches Ok(b) && b@ == finalized_bytes(self),
    {
        let mut header = self.header;
        header.data.size = self.data_size;
        let mut b: Vec<u8> = Vec::new();
        header.write_to(&mut b);
        let ghost hb = b@;
        let n: usize = self.out.len();
        if n > 104 {
            let mut i: usize = 104;
            while i < n
                invariant
                    104 <= i <= n,
                    n == self.out@.len(),
                    b@ == hb + self.out@.subrange(104, i as int),
                decreases n - i,
            {
                b.push(self.out[i]);
                i = i + 1;
                assert(b@ =~= hb + self.out@.subrange(104, i as int));
            }
        } else {
            assert(b@ =~= hb + Seq::<u8>::empty());
        }
        Ok(b)
    }

    /// Sample records are not written in this format: always an
    /// `Unsupported` error, with the writer left as it was.
    pub fn write_sample(&mut self, sample: &SampleEvent) -> (r: Result<(), PerfError>)
        ensures
            r matches Err(e) && unsupported_error(e, "write_sample not yet implemented for Linux perf format"@),
            *final(self) == *old(self),
    {
        Err(
            PerfError::Io {
                kind: IoErrorKind::Unsupported,
                message: string_of("write_sample not yet implemented for Linux perf format"),
            },
        )
    }

    /// The same as `finalize`.
    pub fn finalize_with_header_update(self) -> (r: Result<Vec<u8>, PerfError>)
        ensures
            r matches Ok(b) && b@ == finalized_bytes(self),
    {
        self.finalize()
    }
}

// ---------------------------------------------------------------------
// Records as values, and the reader

/// A sample: where and in which thread it was taken.
#[derive(Debug, Clone)]
pub struct SampleEvent {
    pub header: PerfEventHeader,
    pub ip: u64,
    pub pid: u32,
    pub tid: u32,
    pub period: u64,
    pub callchain: Vec<u64>,
    pub cpu: Option<u32>,
    pub timestamp: u64,
}

impl SampleEvent {
    pub fn new(
        time: u64,
        ip: u64,
        pid: u32,
        tid: u32,
        period: u64,
        callchain: Vec<u64>,
        cpu: Option<u32>,
    ) -> (e: Self)
        ensures
            e.header == (PerfEventHeader { type_: PERF_RECORD_SAMPLE, misc: 0, size: 24 }),
            e.ip == ip && e.pid == pid && e.tid == tid && e.period == period,
            e.callchain@ == callchain@ && e.cpu == cpu && e.timestamp == time,
    {
        SampleEvent {
            header: PerfEventHeader::new(PERF_RECORD_SAMPLE, 24),
            ip,
            pid,
            tid,
            period,
            callchain,
            cpu,
            timestamp: time,
        }
    }
}

/// A mapping of a file into a process.
#[derive(Debug, Clone)]
pub struct MmapEvent {
    pub pid: u32,
    pub tid: u32,
    pub addr: u64,
    pub len: u64,
    pub pgoff: u64,
    pub filename: String,
}

/// A process name.
#[derive(Debug, Clone)]
pub struct CommEvent {
    pub pid: u32,
    pub tid: u32,
    pub comm: String,
}

/// Bytes before the process name in a COMM record: the event header, the
/// process ID and the thread ID.
pub const COMM_FIXED_SIZE: usize = 14;

/// Bytes before the file name in an MMAP record: the event header, the
/// process and thread IDs, the address, the length and the page offset.
pub const MMAP_FIXED_SIZE: usize = 38;

/// The size of a record whose fixed part is `fixed` bytes long and which
/// ends in `name`: the name's UTF-8 bytes and a terminating zero, padded
/// with zeros to a multiple of eight bytes.
pub open spec fn named_record_size(fixed: int, name: Seq<char>) -> int {
    round_up8(fixed + encode_utf8(name).len() + 1)
}

/// Whether that size fits the two bytes of the event header's size field.
pub open spec fn named_record_fits(fixed: int, name: Seq<char>) -> bool {
    named_record_size(fixed, name) <= u16::MAX
}

/// The name field of such a record: the UTF-8 bytes and zeros to the end.
pub open spec fn name_field(fixed: int, name: Seq<char>) -> Seq<u8> {
    encode_utf8(name) + zeros((named_record_size(fixed, name) - fixed - encode_utf8(name).len()) as nat)
}

/// A COMM record: header, process ID, thread ID, name.
pub open spec fn comm_record_bytes(pid: u32, tid: u32, comm: Seq<char>) -> Seq<u8> {
    event_header_bytes(
        PerfEventHeader { type_: PERF_RECORD_COMM, misc: 0, size: named_record_size(14, comm) as u16 },
    ) + le32(pid) + le32(tid) + name_field(14, comm)
}

/// An MMAP record: header, process and thread IDs, address, length, page
/// offset, file name.
pub open spec fn mmap_record_bytes(pid: u32, tid: u32, addr: u64, len: u64, pgoff: u64, filename: Seq<char>) -> Seq<u8> {
    event_header_bytes(
        PerfEventHeader { type_: PERF_RECORD_MMAP, misc: 0, size: named_record_size(38, filename) as u16 },
    ) + le32(pid) + le32(tid) + le64(addr) + le64(len) + le64(pgoff) + name_field(38, filename)
}

/// The record size for a name of `text_len` UTF-8 bytes after `fixed`
/// bytes, when it fits the size field.
fn named_size(fixed: usize, name: &str) -> (r: Option<u16>)
    requires
        fixed <= 64,
    ensures
        r == (if named_record_fits(fixed as int, name@) {
            Some(named_record_size(fixed as int, name@) as u16)
        } else {
            None::<u16>
        }),
{
    let text = name.as_bytes();
    let n: usize = text.len();
    assert(text@ == encode_utf8(name@));
    if n > 65535 {
        return None;
    }
    let size: usize = (fixed + n + 1 + 7) / 8 * 8;
    if size > 65535 {
        None
    } else {
        Some(size as u16)
    }
}

/// Appends the name field of a record whose fixed part is `fixed` bytes.
fn push_name_field(out: &mut Vec<u8>, fixed: usize, name: &str)
    requires
        fixed <= 64,
        named_record_fits(fixed as int, name@),
    ensures
        final(out)@ == old(out)@ + name_field(fixed as int, name@),
{
    let text = name.as_bytes();
    let ghost o = old(out)@;
    let ghost t = encode_utf8(name@);
    assert(text@ == t);
    let n: usize = text.len();
    let mut i: usize = 0;
    while i < n
        invariant
            0 <= i <= n,
            n == text@.len(),
            text@ == t,
            out@ == o + t.subrange(0, i as int),
        decreases n - i,
    {
        out.push(text[i]);
        i = i + 1;
        assert(out@ =~= o + t.subrange(0, i as int));
    }
    assert(t.subrange(0, n as int) =~= t);
    let size: usize = (fixed + n + 1 + 7) / 8 * 8;
    let pad: usize = size - fixed - n;
    let mut p: usize = 0;
    while p < pad
        invariant
            0 <= p <= pad,
            out@ == o + t + zeros(p as nat),
        decreases pad - p,
    {
        out.push(0u8);
        p = p + 1;
        assert(out@ =~= o + t + zeros(p as nat));
    }
    assert(out@ =~= o + name_field(fixed as int, name@));
}

impl CommEvent {
    pub fn new(pid: u32, tid: u32, comm: String) -> (e: Self)
        ensures
            e.pid == pid && e.tid == tid && e.comm@ == comm@,
    {
        CommEvent { pid, tid, comm }
    }

    /// The size of this record, when it fits the size field.
    pub fn record_size(&self) -> (r: Option<u16>)
        ensures
            r == (if named_record_fits(14, self.comm@) {
                Some(named_record_size(14, self.comm@) as u16)
            } else {
                None::<u16>
            }),
    {
        named_size(COMM_FIXED_SIZE, self.comm.as_str())
    }

    /// Appends the record.
    pub fn write_to(&self, out: &mut Vec<u8>)
        requires
            named_record_fits(14, self.comm@),
        ensures
            final(out)@ == old(out)@ + comm_record_bytes(self.pid, self.tid, self.comm@),
    {
        let size = named_size(COMM_FIXED_SIZE, self.comm.as_str()).unwrap();
        let header = PerfEventHeader::new(PERF_RECORD_COMM, size);
        let ghost o = old(out)@;
        header.write_to(out);
        push_bytes(out, le_u32(self.pid));
        push_bytes(out, le_u32(self.tid));
        push_name_field(out, COMM_FIXED_SIZE, self.comm.as_str());
        assert(out@ =~= o + comm_record_bytes(self.pid, self.tid, self.comm@));
    }
}

impl MmapEvent {
    pub fn new(pid: u32, tid: u32, addr: u64, len: u64, pgoff: u64, filename: String) -> (e: Self)
        ensures
            e.pid == pid && e.tid == tid && e.addr == addr && e.len == len && e.pgoff == pgoff,
            e.filename@ == filename@,
    {
        MmapEvent { pid, tid, addr, len, pgoff, filename }
    }

    /// The size of this record, when it fits the size field.
    pub fn record_size(&self) -> (r: Option<u16>)
        ensures
            r == (if named_record_fits(38, self.filename@) {
                Some(named_record_size(38, self.filename@) as u16)
            } else {
                None::<u16>
            }),
    {
        named_size(MMAP_FIXED_SIZE, self.filename.as_str())
    }

    /// Appends the record.
    pub fn write_to(&self, out: &mut Vec<u8>)
        requires
            named_record_fits(38, self.filename@),
        ensures
            final(out)@ == old(out)@ + mmap_record_bytes(
                self.pid,
                self.tid,
                self.addr,
                self.len,
                self.pgoff,
                self.filename@,
            ),
    {
        let size = named_size(MMAP_FIXED_SIZE, self.filename.as_str()).unwrap();
        let header = PerfEventHeader::new(PERF_RECORD_MMAP, size);
        let ghost o = old(out)@;
        header.write_to(out);
        push_bytes(out, le_u32(self.pid));
        push_bytes(out, le_u32(self.tid));
        push_bytes(out, le_u64(self.addr));
        push_bytes(out, le_u64(self.len));
        push_bytes(out, le_u64(self.pgoff));
        push_name_field(out, MMAP_FIXED_SIZE, self.filename.as_str());
        assert(out@ =~= o + mmap_record_bytes(
            self.pid,
            self.tid,
            self.addr,
            self.len,
            self.pgoff,
            self.filename@,
        ));
    }
}

/// The bytes of `s` before its first zero byte (all of them when it has
/// none).
pub open spec fn until_zero(s: Seq<u8>) -> Seq<u8>
    decreases s.len(),
{
    if s.len() == 0 {
        s
    } else if s[0] == 0 {
        Seq::empty()
    } else {
        seq![s[0]] + until_zero(s.drop_first())
    }
}

proof fn lemma_until_zero_at(s: Seq<u8>, k: int)
    requires
        0 <= k <= s.len(),
        forall|j: int| 0 <= j < k ==> s[j] != 0,
        k < s.len() ==> s[k] == 0,
    ensures
        until_zero(s) == s.take(k),
    decreases s.len(),
{
    if k > 0 {
        lemma_until_zero_at(s.drop_first(), k - 1);
        assert(s.take(k) =~= seq![s[0]] + s.drop_first().take(k - 1));
    } else {
        assert(s.take(0) =~= Seq::<u8>::empty());
    }
}

/// `String::from_utf8`: the text whose UTF-8 encoding is `bytes`. The
/// standard library documents that it fails exactly on bytes that are not
/// valid UTF-8; this states that valid bytes give a text, and that a text it
/// gives encodes to the bytes.
#[verifier::external_body]
fn string_from_utf8(bytes: Vec<u8>) -> (r: Option<String>)
    ensures
        valid_utf8(bytes@) ==> r is Some,
        r matches Some(s) ==> encode_utf8(s@) == bytes@,
{
    String::from_utf8(bytes).ok()
}

/// The type field of an event header at the start of `b`.
pub open spec fn header_type_at(b: Seq<u8>) -> u16 {
    spec_u16_from_le_bytes(b.subrange(0, 2))
}

/// The size field of an event header at the start of `b`.
pub open spec fn header_size_at(b: Seq<u8>) -> u16 {
    spec_u16_from_le_bytes(b.subrange(4, 6))
}

/// The name that a record of type `type_` at the start of `b` ends in,
/// after `fixed` bytes: the bytes of its name field up to the first zero,
/// decoded as UTF-8. None when `b` holds no whole record of that type, or
/// the name is not valid UTF-8.
pub open spec fn record_name(b: Seq<u8>, type_: u16, fixed: int) -> Option<Seq<char>> {
    if b.len() >= 6 && header_type_at(b) == type_ && fixed <= header_size_at(b) <= b.len() && valid_utf8(
        until_zero(b.subrange(fixed, header_size_at(b) as int)),
    ) {
        Some(decode_utf8(until_zero(b.subrange(fixed, header_size_at(b) as int))))
    } else {
        None
    }
}

/// What a COMM record at the start of `b` holds: process ID, thread ID and
/// name.
pub open spec fn comm_record_fields(b: Seq<u8>) -> Option<(u32, u32, Seq<char>)> {
    match record_name(b, PERF_RECORD_COMM, 14) {
        Some(name) => Some(
            (spec_u32_from_le_bytes(b.subrange(6, 10)), spec_u32_from_le_bytes(b.subrange(10, 14)), name),
        ),
        None => None,
    }
}

/// What an MMAP record at the start of `b` holds: process ID, thread ID,
/// address, length, page offset and file name.
pub open spec fn mmap_record_fields(b: Seq<u8>) -> Option<(u32, u32, u64, u64, u64, Seq<char>)> {
    match record_name(b, PERF_RECORD_MMAP, 38) {
        Some(name) => Some(
            (
                spec_u32_from_le_bytes(b.subrange(6, 10)),
                spec_u32_from_le_bytes(b.subrange(10, 14)),
                spec_u64_from_le_bytes(b.subrange(14, 22)),
                spec_u64_from_le_bytes(b.subrange(22, 30)),
                spec_u64_from_le_bytes(b.subrange(30, 38)),
                name,
            ),
        ),
        None => None,
    }
}

/// The error for a record of another type than the one asked for.
pub open spec fn wrong_type_error(e: PerfError, type_: u16) -> bool {
    e matches PerfError::InvalidEventType { event_type } && event_type == type_
}

/// The error for a name that is not valid UTF-8.
pub open spec fn invalid_name_error(e: PerfError) -> bool {
    e matches PerfError::Io { kind, message } && kind == IoErrorKind::InvalidData && message@
        == "stream did not contain valid UTF-8"@
}

/// Which error reading a record of type `type_` with a `fixed`-byte fixed
/// part from `b` gives, when it gives one.
pub open spec fn record_read_error(b: Seq<u8>, type_: u16, fixed: int, e: PerfError) -> bool {
    if b.len() < 6 {
        is_eof_error(e)
    } else if header_type_at(b) != type_ {
        wrong_type_error(e, header_type_at(b))
    } else if header_size_at(b) < fixed || b.len() < header_size_at(b) {
        is_eof_error(e)
    } else {
        invalid_name_error(e)
    }
}

/// Reads the name of a record of type `type_` at the start of `b`.
fn read_record_name(b: &[u8], type_: u16, fixed: usize) -> (r: Result<String, PerfError>)
    requires
        6 <= fixed <= 64,
    ensures
        match r {
            Ok(s) => record_name(b@, type_, fixed as int) == Some(s@),
            Err(e) => record_name(b@, type_, fixed as int) is None && record_read_error(
                b@,
                type_,
                fixed as int,
                e,
            ),
        },
{
    if b.len() < 6 {
        return Err(make_eof_error());
    }
    let t = u16_at(b, 0);
    if t != type_ {
        return Err(PerfError::InvalidEventType { event_type: t });
    }
    let size = u16_at(b, 4) as usize;
    if size < fixed || b.len() < size {
        return Err(make_eof_error());
    }
    let ghost field = b@.subrange(fixed as int, size as int);
    let mut bytes: Vec<u8> = Vec::new();
    let mut k: usize = fixed;
    while k < size && b[k] != 0
        invariant
            fixed <= k <= size,
            size <= b@.len(),
            field == b@.subrange(fixed as int, size as int),
            bytes@ == field.take(k - fixed),
            forall|j: int| 0 <= j < k - fixed ==> field[j] != 0,
        decreases size - k,
    {
        bytes.push(b[k]);
        k = k + 1;
        assert(bytes@ =~= field.take(k - fixed));
    }
    proof {
        lemma_until_zero_at(field, k - fixed);
    }
    match string_from_utf8(bytes) {
        Some(s) => {
            proof {
                encode_utf8_valid_utf8(s@);
                encode_utf8_decode_utf8(s@);
            }
            Ok(s)
        },
        None => Err(
            PerfError::Io {
                kind: IoErrorKind::InvalidData,
                message: string_of("stream did not contain valid UTF-8"),
            },
        ),
    }
}

impl CommEvent {
    /// Reads a COMM record from the start of `b`.
    pub fn read_from(b: &[u8]) -> (r: Result<CommEvent, PerfError>)
        ensures
            match comm_record_fields(b@) {
                Some((pid, tid, comm)) => r matches Ok(e) && e.pid == pid && e.tid == tid && e.comm@ == comm,
                None => r matches Err(e) && record_read_error(b@, PERF_RECORD_COMM, 14, e),
            },
    {
        let comm = read_record_name(b, PERF_RECORD_COMM, COMM_FIXED_SIZE)?;
        Ok(CommEvent { pid: u32_at(b, 6), tid: u32_at(b, 10), comm })
    }
}

impl MmapEvent {
    /// Reads an MMAP record from the start of `b`.
    pub fn read_from(b: &[u8]) -> (r: Result<MmapEvent, PerfError>)
        ensures
            match mmap_record_fields(b@) {
                Some((pid, tid, addr, len, pgoff, filename)) => r matches Ok(e) && e.pid == pid && e.tid
                    == tid && e.addr == addr && e.len == len && e.pgoff == pgoff && e.filename@ == filename,
                None => r matches Err(e) && record_read_error(b@, PERF_RECORD_MMAP, 38, e),
            },
    {
        let filename = read_record_name(b, PERF_RECORD_MMAP, MMAP_FIXED_SIZE)?;
        Ok(
            MmapEvent {
                pid: u32_at(b, 6),
                tid: u32_at(b, 10),
                addr: u64_at(b, 14),
                len: u64_at(b, 22),
                pgoff: u64_at(b, 30),
                filename,
            },
        )
    }
}

proof fn lemma_or_high_nonzero(y: u8)
    by (bit_vector)
    ensures
        (0x80u8 | y) != 0u8,
        (0xC0u8 | y) != 0u8,
        (0xE0u8 | y) != 0u8,
        (0xF0u8 | y) != 0u8,
{
}

proof fn lemma_low_byte_nonzero(x: u32)
    by (bit_vector)
    requires
        0 < x <= 0x7f,
    ensures
        ((x & 0x7F) as u8) != 0u8,
{
}

proof fn lemma_scalar_bytes_nonzero(x: u32)
    requires
        is_scalar(x),
        x != 0,
    ensures
        forall|j: int| 0 <= j < encode_scalar(x).len() ==> encode_scalar(x)[j] != 0,
{
    if has_width_1_encoding(x) {
        lemma_low_byte_nonzero(x);
    } else {
        lemma_or_high_nonzero(((x >> 6) & 0x1F) as u8);
        lemma_or_high_nonzero((x & 0x3F) as u8);
        lemma_or_high_nonzero(((x >> 12) & 0x0F) as u8);
        lemma_or_high_nonzero(((x >> 6) & 0x3F) as u8);
        lemma_or_high_nonzero(((x >> 18) & 0x7) as u8);
        lemma_or_high_nonzero(((x >> 12) & 0x3F) as u8);
    }
}

/// A text without NUL characters encodes to bytes without zeros.
proof fn lemma_encode_no_zero(chars: Seq<char>)
    requires
        forall|i: int| 0 <= i < chars.len() ==> chars[i] != '\0',
    ensures
        forall|j: int| 0 <= j < encode_utf8(chars).len() ==> encode_utf8(chars)[j] != 0,
    decreases chars.len(),
{
    if chars.len() > 0 {
        let c = chars[0];
        char_is_scalar(c);
        char_u32_cast(c, c as u32);
        assert((0u32 as char) == '\0');
        assert(c as u32 != 0);
        lemma_scalar_bytes_nonzero(c as u32);
        lemma_encode_no_zero(chars.drop_first());
        let head = encode_scalar(c as u32);
        let rest = encode_utf8(chars.drop_first());
        assert(encode_utf8(chars) == head + rest);
        assert forall|j: int| 0 <= j < encode_utf8(chars).len() implies encode_utf8(chars)[j] != 0 by {
            if j < head.len() {
                assert(encode_utf8(chars)[j] == head[j]);
            } else {
                assert(encode_utf8(chars)[j] == rest[j - head.len()]);
            }
        }
    }
}

/// The name field of a record for a name without NUL characters reads back
/// as the name.
proof fn lemma_name_field_reads_back(fixed: int, name: Seq<char>)
    requires
        0 <= fixed,
        forall|i: int| 0 <= i < name.len() ==> name[i] != '\0',
    ensures
        valid_utf8(until_zero(name_field(fixed, name))),
        decode_utf8(until_zero(name_field(fixed, name))) == name,
        name_field(fixed, name).len() == named_record_size(fixed, name) - fixed,
{
    let t = encode_utf8(name);
    let field = name_field(fixed, name);
    lemma_encode_no_zero(name);
    assert(field.len() > t.len());
    assert(field[t.len() as int] == 0u8);
    assert forall|j: int| 0 <= j < t.len() implies field[j] != 0 by {
        assert(field[j] == t[j]);
    }
    lemma_until_zero_at(field, t.len() as int);
    assert(field.take(t.len() as int) =~= t);
    encode_utf8_valid_utf8(name);
    encode_utf8_decode_utf8(name);
}

/// Reading back the COMM record written for a process ID, a thread ID and a
/// name without NUL characters gives them back.
pub proof fn lemma_comm_record_roundtrip(pid: u32, tid: u32, comm: Seq<char>)
    requires
        named_record_fits(14, comm),
        forall|i: int| 0 <= i < comm.len() ==> comm[i] != '\0',
    ensures
        comm_record_fields(comm_record_bytes(pid, tid, comm)) == Some((pid, tid, comm)),
{
    lemma_auto_spec_u16_to_from_le_bytes();
    lemma_auto_spec_u32_to_from_le_bytes();
    lemma_name_field_reads_back(14, comm);
    let size = named_record_size(14, comm);
    let b = comm_record_bytes(pid, tid, comm);
    assert(b.len() == size);
    assert(b.subrange(0, 2) =~= le16(PERF_RECORD_COMM));
    assert(b.subrange(4, 6) =~= le16(size as u16));
    assert(b.subrange(6, 10) =~= le32(pid));
    assert(b.subrange(10, 14) =~= le32(tid));
    assert(b.subrange(14, size) =~= name_field(14, comm));
}

/// Reading back the MMAP record written for a mapping whose file name has
/// no NUL characters gives the mapping back.
pub proof fn lemma_mmap_record_roundtrip(
    pid: u32,
    tid: u32,
    addr: u64,
    len: u64,
    pgoff: u64,
    filename: Seq<char>,
)
    requires
        named_record_fits(38, filename),
        forall|i: int| 0 <= i < filename.len() ==> filename[i] != '\0',
    ensures
        mmap_record_fields(mmap_record_bytes(pid, tid, addr, len, pgoff, filename)) == Some(
            (pid, tid, addr, len, pgoff, filename),
        ),
{
    lemma_auto_spec_u16_to_from_le_bytes();
    lemma_auto_spec_u32_to_from_le_bytes();
    lemma_auto_spec_u64_to_from_le_bytes();
    lemma_name_field_reads_back(38, filename);
    let size = named_record_size(38, filename);
    let b = mmap_record_bytes(pid, tid, addr, len, pgoff, filename);
    assert(b.len() == size);
    assert(b.subrange(0, 2) =~= le16(PERF_RECORD_MMAP));
    assert(b.subrange(4, 6) =~= le16(size as u16));
    assert(b.subrange(6, 10) =~= le32(pid));
    assert(b.subrange(10, 14) =~= le32(tid));
    assert(b.subrange(14, 22) =~= le64(addr));
    assert(b.subrange(22, 30) =~= le64(len));
    assert(b.subrange(30, 38) =~= le64(pgoff));
    assert(b.subrange(38, size) =~= name_field(38, filename));
}

/// A record read back from a file.
#[derive(Debug, Clone)]
pub enum Event {
    Sample(SampleEvent),
    Mmap(MmapEvent),
    Comm(CommEvent),
}

/// Reader of perf.data images: the file header is read and checked; the
/// records of a data section are not decoded (an empty data section reads
/// as no records).
#[derive(Debug, Clone)]
pub struct PerfDataReader {
    header: PerfFileHeader,
}

pub open spec fn reader_unsupported_message() -> Seq<char> {
    "PerfDataReader not yet implemented for Linux perf format"@
}

fn reader_unsupported() -> (e: PerfError)
    ensures
        unsupported_error(e, reader_unsupported_message()),
{
    PerfError::Io {
        kind: IoErrorKind::Unsupported,
        message: string_of("PerfDataReader not yet implemented for Linux perf format"),
    }
}

/// What opening an image gives: the header that it starts with when that
/// header is long enough and valid, else the error of reading or checking
/// it.
pub open spec fn reader_opens(data: Seq<u8>, r: Result<PerfDataReader, PerfError>) -> bool {
    if data.len() < 104 {
        r matches Err(e) && is_eof_error(e)
    } else {
        exists|h: PerfFileHeader|
            #![trigger header_read_from(data, h)]
            {
                &&& header_read_from(data, h)
                &&& if h.magic != PERF_FILE_MAGIC {
                    r matches Err(PerfError::InvalidMagic { .. })
                } else if h.size != PERF_FILE_HEADER_SIZE {
                    r matches Err(PerfError::Io { kind, message }) && kind == IoErrorKind::InvalidData
                        && message@ == header_size_message(h.size)
                } else {
                    r matches Ok(rd) && rd.header_view() == h
                }
            }
    }
}

impl PerfDataReader {
    /// The header read from the image.
    pub closed spec fn header_view(&self) -> PerfFileHeader {
        self.header
    }

    /// Opens an image held in memory: reads its header and checks the
    /// magic and the header size.
    pub fn new(data: &[u8]) -> (r: Result<PerfDataReader, PerfError>)
        ensures
            reader_opens(data@, r),
    {
        let h = match PerfFileHeader::read_from(data) {
            Ok(h) => h,
            Err(e) => {
                return Err(e);
            },
        };
        match h.validate() {
            Ok(()) => Ok(PerfDataReader { header: h }),
            Err(e) => Err(e),
        }
    }

    /// Opens the file at `path`, given what reading it gave: its bytes,
    /// or the kind and message of the failure to read it, which is an
    /// `Io` error with that message.
    pub fn from_path(path: &str, contents: Result<Vec<u8>, (IoErrorKind, String)>) -> (r: Result<
        PerfDataReader,
        PerfError,
    >)
        ensures
            match contents {
                Ok(bytes) => reader_opens(bytes@, r),
                Err((kind, message)) => r matches Err(PerfError::Io { kind: k, message: m }) && k == kind && m@
                    == message@,
            },
    {
        match contents {
            Ok(bytes) => PerfDataReader::new(bytes.as_slice()),
            Err((kind, message)) => Err(PerfError::Io { kind, message }),
        }
    }

    /// The header of the file.
    pub fn header(&self) -> (h: PerfFileHeader)
        ensures
            h == self.header_view(),
    {
        let h = &self.header;
        PerfFileHeader {
            magic: h.magic,
            size: h.size,
            attr_size: h.attr_size,
            attrs: h.attrs,
            data: h.data,
            event_types: h.event_types,
            flags: h.flags,
            flags1: h.flags1,
            sample_count: h.sample_count,
            mmap_count: h.mmap_count,
            comm_count: h.comm_count,
        }
    }

    /// The next record: none when the data section is empty; records are
    /// not decoded otherwise, which is an `Unsupported` error.
    pub fn read_event(&mut self) -> (r: Result<Option<Event>, PerfError>)
        ensures
            final(self).header_view() == old(self).header_view(),
            old(self).header_view().data.size == 0 ==> r matches Ok(None),
            old(self).header_view().data.size != 0 ==> (r matches Err(e) && unsupported_error(
                e,
                reader_unsupported_message(),
            )),
    {
        if self.header.data.size == 0 {
            Ok(None)
        } else {
            Err(reader_unsupported())
        }
    }

    /// All records: none when the data section is empty; records are not
    /// decoded otherwise, which is an `Unsupported` error.
    pub fn read_all_events(&mut self) -> (r: Result<Vec<Event>, PerfError>)
        ensures
            final(self).header_view() == old(self).header_view(),
            old(self).header_view().data.size == 0 ==> (r matches Ok(v) && v@.len() == 0),
            old(self).header_view().data.size != 0 ==> (r matches Err(e) && unsupported_error(
                e,
                reader_unsupported_message(),
            )),
    {
        if self.header.data.size == 0 {
            Ok(Vec::new())
        } else {
            Err(reader_unsupported())
        }
    }
}

/// The data section starts at a multiple of eight, at most seven bytes
/// past the end of the ID lists.
pub proof fn lemma_round_up8(n: int)
    requires
        n >= 0,
    ensures
        round_up8(n) % 8 == 0,
        n <= round_up8(n) < n + 8,
{
}

} // verus!
