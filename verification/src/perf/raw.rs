//! The structures of `<WinPerf.h>` and their byte images, as laid out on 64-bit Windows:
//! little-endian, natural alignment.
#![allow(non_snake_case)]
#![allow(non_camel_case_types)]
use vstd::prelude::*;

verus! {

/// The four little-endian bytes of a 32-bit value.
pub open spec fn le32(v: u32) -> Seq<u8> {
    seq![(v & 0xff) as u8, ((v >> 8u32) & 0xff) as u8, ((v >> 16u32) & 0xff) as u8, ((v >> 24u32) & 0xff) as u8]
}

/// The eight little-endian bytes of a 64-bit value.
pub open spec fn le64(v: u64) -> Seq<u8> {
    le32((v & 0xffff_ffff) as u32) + le32((v >> 32u64) as u32)
}

/// The 32-bit value of four little-endian bytes.
pub open spec fn u32_at(b: Seq<u8>, pos: int) -> u32 {
    (b[pos] as u32) | ((b[pos + 1] as u32) << 8u32) | ((b[pos + 2] as u32) << 16u32) | ((b[pos + 3] as u32) << 24u32)
}

/// The 16-bit value of two little-endian bytes.
pub open spec fn u16_at(b: Seq<u8>, pos: int) -> u16 {
    (b[pos] as u16) | ((b[pos + 1] as u16) << 8u16)
}

/// The 64-bit value of eight little-endian bytes.
pub open spec fn u64_at(b: Seq<u8>, pos: int) -> u64 {
    (u32_at(b, pos) as u64) | ((u32_at(b, pos + 4) as u64) << 32u64)
}

proof fn lemma_le32_bytes(v: u32, b0: u8, b1: u8, b2: u8, b3: u8)
    by (bit_vector)
    requires
        b0 == (v & 0xff) as u8,
        b1 == ((v >> 8u32) & 0xff) as u8,
        b2 == ((v >> 16u32) & 0xff) as u8,
        b3 == ((v >> 24u32) & 0xff) as u8,
    ensures
        (b0 as u32) | ((b1 as u32) << 8u32) | ((b2 as u32) << 16u32) | ((b3 as u32) << 24u32) == v,
{
}

/// Reading back the bytes of a 32-bit value gives the value.
pub proof fn lemma_u32_roundtrip(v: u32, b: Seq<u8>, pos: int)
    requires
        0 <= pos,
        pos + 4 <= b.len(),
        b.subrange(pos, pos + 4) == le32(v),
    ensures
        u32_at(b, pos) == v,
{
    assert(b[pos] == le32(v)[0]);
    assert(b[pos + 1] == le32(v)[1]);
    assert(b[pos + 2] == le32(v)[2]);
    assert(b[pos + 3] == le32(v)[3]);
    lemma_le32_bytes(v, b[pos], b[pos + 1], b[pos + 2], b[pos + 3]);
}

proof fn lemma_u64_halves(v: u64, lo: u32, hi: u32)
    by (bit_vector)
    requires
        lo == (v & 0xffff_ffff) as u32,
        hi == (v >> 32u64) as u32,
    ensures
        (lo as u64) | ((hi as u64) << 32u64) == v,
{
}

/// Reading back the bytes of a 64-bit value gives the value.
pub proof fn lemma_u64_roundtrip(v: u64, b: Seq<u8>, pos: int)
    requires
        0 <= pos,
        pos + 8 <= b.len(),
        b.subrange(pos, pos + 8) == le64(v),
    ensures
        u64_at(b, pos) == v,
{
    let lo = (v & 0xffff_ffff) as u32;
    let hi = (v >> 32u64) as u32;
    assert(b.subrange(pos, pos + 4) =~= le32(lo)) by {
        assert forall|i: int| 0 <= i < 4 implies b.subrange(pos, pos + 4)[i] == le32(lo)[i] by {
            assert(b.subrange(pos, pos + 8)[i] == le64(v)[i]);
        }
    }
    assert(b.subrange(pos + 4, pos + 8) =~= le32(hi)) by {
        assert forall|i: int| 0 <= i < 4 implies b.subrange(pos + 4, pos + 8)[i] == le32(hi)[i] by {
            assert(b.subrange(pos, pos + 8)[i + 4] == le64(v)[i + 4]);
        }
    }
    lemma_u32_roundtrip(lo, b, pos);
    lemma_u32_roundtrip(hi, b, pos + 4);
    lemma_u64_halves(v, lo, hi);
}

/// The 16-bit value at `pos`.
pub fn read_u16(b: &[u8], pos: usize) -> (r: u16)
    requires
        pos + 2 <= b@.len(),
    ensures
        r == u16_at(b@, pos as int),
{
    (b[pos] as u16) | ((b[pos + 1] as u16) << 8u16)
}

/// Append the four little-endian bytes of `v`.
pub fn push_u32(out: &mut Vec<u8>, v: u32)
    ensures
        final(out)@ == old(out)@ + le32(v),
{
    out.push((v & 0xff) as u8);
    out.push(((v >> 8) & 0xff) as u8);
    out.push(((v >> 16) & 0xff) as u8);
    out.push(((v >> 24) & 0xff) as u8);
    assert(out@ =~= old(out)@ + le32(v));
}

/// Append the eight little-endian bytes of `v`.
pub fn push_u64(out: &mut Vec<u8>, v: u64)
    ensures
        final(out)@ == old(out)@ + le64(v),
{
    push_u32(out, (v & 0xffff_ffff) as u32);
    push_u32(out, (v >> 32) as u32);
    assert(out@ =~= old(out)@ + le64(v));
}

/// The 32-bit value of the four bytes at `pos`.
pub fn read_u32(b: &[u8], pos: usize) -> (r: u32)
    requires
        pos + 4 <= b@.len(),
    ensures
        r == u32_at(b@, pos as int),
{
    let len = b.len();
    assert(len == b@.len());
    (b[pos] as u32) | ((b[pos + 1] as u32) << 8) | ((b[pos + 2] as u32) << 16) | ((b[pos + 3] as u32) << 24)
}

/// The 64-bit value of the eight bytes at `pos`.
pub fn read_u64(b: &[u8], pos: usize) -> (r: u64)
    requires
        pos + 8 <= b@.len(),
    ensures
        r == u64_at(b@, pos as int),
{
    let len = b.len();
    assert(len == b@.len());
    (read_u32(b, pos) as u64) | ((read_u32(b, pos + 4) as u64) << 32)
}

/// Size in bytes of `PERF_DATA_BLOCK`.
pub const PERF_DATA_BLOCK_SIZE: usize = 88;

/// Size in bytes of `PERF_OBJECT_TYPE`.
pub const PERF_OBJECT_TYPE_SIZE: usize = 64;

/// Size in bytes of `PERF_COUNTER_DEFINITION`.
pub const PERF_COUNTER_DEFINITION_SIZE: usize = 40;

/// Size in bytes of `PERF_INSTANCE_DEFINITION`.
pub const PERF_INSTANCE_DEFINITION_SIZE: usize = 24;

/// Size in bytes of `PERF_COUNTER_BLOCK`.
pub const PERF_COUNTER_BLOCK_SIZE: usize = 4;

/// The header of the performance data of a system. The system time is kept as the eight
/// 16-bit fields of a `SYSTEMTIME`.
#[derive(Clone, Copy, Debug)]
pub struct PERF_DATA_BLOCK {
    pub Signature: [u16; 4],
    pub LittleEndian: u32,
    pub Version: u32,
    pub Revision: u32,
    pub TotalByteLength: u32,
    pub HeaderLength: u32,
    pub NumObjectTypes: u32,
    pub DefaultObject: i32,
    pub SystemTime: [u16; 8],
    pub PerfTime: i64,
    pub PerfFreq: i64,
    pub PerfTime100nSec: i64,
    pub SystemNameLength: u32,
    pub SystemNameOffset: u32,
}

/// The header of an object of performance data.
#[derive(Clone, Copy, Debug, PartialEq, Eq, Structural)]
pub struct PERF_OBJECT_TYPE {
    pub TotalByteLength: u32,
    pub DefinitionLength: u32,
    pub HeaderLength: u32,
    pub ObjectNameTitleIndex: u32,
    pub ObjectNameTitle: u32,
    pub ObjectHelpTitleIndex: u32,
    pub ObjectHelpTitle: u32,
    pub DetailLevel: u32,
    pub NumCounters: u32,
    pub DefaultCounter: i32,
    pub NumInstances: i32,
    pub CodePage: u32,
    pub PerfTime: i64,
    pub PerfFreq: i64,
}

/// The definition of a counter.
#[derive(Clone, Copy, Debug, PartialEq, Eq, Structural)]
pub struct PERF_COUNTER_DEFINITION {
    pub ByteLength: u32,
    pub CounterNameTitleIndex: u32,
    pub CounterNameTitle: u32,
    pub CounterHelpTitleIndex: u32,
    pub CounterHelpTitle: u32,
    pub DefaultScale: i32,
    pub DetailLevel: u32,
    pub CounterType: u32,
    pub CounterSize: u32,
    pub CounterOffset: u32,
}

/// The definition of an instance; its name follows at `NameOffset`.
#[derive(Clone, Copy, Debug, PartialEq, Eq, Structural)]
pub struct PERF_INSTANCE_DEFINITION {
    pub ByteLength: u32,
    pub ParentObjectTitleIndex: u32,
    pub ParentObjectInstance: u32,
    pub UniqueID: i32,
    pub NameOffset: u32,
    pub NameLength: u32,
}

/// The header of a block of counter values.
#[derive(Clone, Copy, Debug, PartialEq, Eq, Structural)]
pub struct PERF_COUNTER_BLOCK {
    pub ByteLength: u32,
}

/// The bytes of an object header.
pub open spec fn object_type_bytes(o: PERF_OBJECT_TYPE) -> Seq<u8> {
    le32(o.TotalByteLength) + le32(o.DefinitionLength) + le32(o.HeaderLength) + le32(
        o.ObjectNameTitleIndex,
    ) + le32(o.ObjectNameTitle) + le32(o.ObjectHelpTitleIndex) + le32(o.ObjectHelpTitle) + le32(
        o.DetailLevel,
    ) + le32(o.NumCounters) + le32(o.DefaultCounter as u32) + le32(o.NumInstances as u32) + le32(
        o.CodePage,
    ) + le64(o.PerfTime as u64) + le64(o.PerfFreq as u64)
}

/// The bytes of a counter definition.
pub open spec fn counter_definition_bytes(c: PERF_COUNTER_DEFINITION) -> Seq<u8> {
    le32(c.ByteLength) + le32(c.CounterNameTitleIndex) + le32(c.CounterNameTitle) + le32(
        c.CounterHelpTitleIndex,
    ) + le32(c.CounterHelpTitle) + le32(c.DefaultScale as u32) + le32(c.DetailLevel) + le32(
        c.CounterType,
    ) + le32(c.CounterSize) + le32(c.CounterOffset)
}

/// The bytes of an instance definition, without its name.
pub open spec fn instance_definition_bytes(i: PERF_INSTANCE_DEFINITION) -> Seq<u8> {
    le32(i.ByteLength) + le32(i.ParentObjectTitleIndex) + le32(i.ParentObjectInstance) + le32(
        i.UniqueID as u32,
    ) + le32(i.NameOffset) + le32(i.NameLength)
}

/// The bytes of a counter block header.
pub open spec fn counter_block_bytes(b: PERF_COUNTER_BLOCK) -> Seq<u8> {
    le32(b.ByteLength)
}

impl PERF_OBJECT_TYPE {
    pub fn to_bytes(&self) -> (r: Vec<u8>)
        ensures
            r@ == object_type_bytes(*self),
            r@.len() == PERF_OBJECT_TYPE_SIZE,
    {
        let mut out: Vec<u8> = Vec::new();
        push_u32(&mut out, self.TotalByteLength);
        push_u32(&mut out, self.DefinitionLength);
        push_u32(&mut out, self.HeaderLength);
        push_u32(&mut out, self.ObjectNameTitleIndex);
        push_u32(&mut out, self.ObjectNameTitle);
        push_u32(&mut out, self.ObjectHelpTitleIndex);
        push_u32(&mut out, self.ObjectHelpTitle);
        push_u32(&mut out, self.DetailLevel);
        push_u32(&mut out, self.NumCounters);
        push_u32(&mut out, self.DefaultCounter as u32);
        push_u32(&mut out, self.NumInstances as u32);
        push_u32(&mut out, self.CodePage);
        push_u64(&mut out, self.PerfTime as u64);
        push_u64(&mut out, self.PerfFreq as u64);
        assert(out@ =~= object_type_bytes(*self));
        out
    }

    /// The header at `pos`.
    pub fn read(b: &[u8], pos: usize) -> (r: Self)
        requires
            pos + PERF_OBJECT_TYPE_SIZE <= b@.len(),
        ensures
            r == spec_read_object_type(b@, pos as int),
    {
        let len = b.len();
        assert(len == b@.len());
        PERF_OBJECT_TYPE {
            TotalByteLength: read_u32(b, pos),
            DefinitionLength: read_u32(b, pos + 4),
            HeaderLength: read_u32(b, pos + 8),
            ObjectNameTitleIndex: read_u32(b, pos + 12),
            ObjectNameTitle: read_u32(b, pos + 16),
            ObjectHelpTitleIndex: read_u32(b, pos + 20),
            ObjectHelpTitle: read_u32(b, pos + 24),
            DetailLevel: read_u32(b, pos + 28),
            NumCounters: read_u32(b, pos + 32),
            DefaultCounter: read_u32(b, pos + 36) as i32,
            NumInstances: read_u32(b, pos + 40) as i32,
            CodePage: read_u32(b, pos + 44),
            PerfTime: read_u64(b, pos + 48) as i64,
            PerfFreq: read_u64(b, pos + 56) as i64,
        }
    }
}

/// The object header whose bytes start at `pos`.
pub open spec fn spec_read_object_type(b: Seq<u8>, pos: int) -> PERF_OBJECT_TYPE {
    PERF_OBJECT_TYPE {
        TotalByteLength: u32_at(b, pos),
        DefinitionLength: u32_at(b, pos + 4),
        HeaderLength: u32_at(b, pos + 8),
        ObjectNameTitleIndex: u32_at(b, pos + 12),
        ObjectNameTitle: u32_at(b, pos + 16),
        ObjectHelpTitleIndex: u32_at(b, pos + 20),
        ObjectHelpTitle: u32_at(b, pos + 24),
        DetailLevel: u32_at(b, pos + 28),
        NumCounters: u32_at(b, pos + 32),
        DefaultCounter: u32_at(b, pos + 36) as i32,
        NumInstances: u32_at(b, pos + 40) as i32,
        CodePage: u32_at(b, pos + 44),
        PerfTime: u64_at(b, pos + 48) as i64,
        PerfFreq: u64_at(b, pos + 56) as i64,
    }
}

impl PERF_COUNTER_DEFINITION {
    pub fn to_bytes(&self) -> (r: Vec<u8>)
        ensures
            r@ == counter_definition_bytes(*self),
            r@.len() == PERF_COUNTER_DEFINITION_SIZE,
    {
        let mut out: Vec<u8> = Vec::new();
        push_u32(&mut out, self.ByteLength);
        push_u32(&mut out, self.CounterNameTitleIndex);
        push_u32(&mut out, self.CounterNameTitle);
        push_u32(&mut out, self.CounterHelpTitleIndex);
        push_u32(&mut out, self.CounterHelpTitle);
        push_u32(&mut out, self.DefaultScale as u32);
        push_u32(&mut out, self.DetailLevel);
        push_u32(&mut out, self.CounterType);
        push_u32(&mut out, self.CounterSize);
        push_u32(&mut out, self.CounterOffset);
        assert(out@ =~= counter_definition_bytes(*self));
        out
    }

    /// The definition at `pos`.
    pub fn read(b: &[u8], pos: usize) -> (r: Self)
        requires
            pos + PERF_COUNTER_DEFINITION_SIZE <= b@.len(),
        ensures
            r == spec_read_counter_definition(b@, pos as int),
    {
        let len = b.len();
        assert(len == b@.len());
        PERF_COUNTER_DEFINITION {
            ByteLength: read_u32(b, pos),
            CounterNameTitleIndex: read_u32(b, pos + 4),
            CounterNameTitle: read_u32(b, pos + 8),
            CounterHelpTitleIndex: read_u32(b, pos + 12),
            CounterHelpTitle: read_u32(b, pos + 16),
            DefaultScale: read_u32(b, pos + 20) as i32,
            DetailLevel: read_u32(b, pos + 24),
            CounterType: read_u32(b, pos + 28),
            CounterSize: read_u32(b, pos + 32),
            CounterOffset: read_u32(b, pos + 36),
        }
    }
}

/// The counter definition whose bytes start at `pos`.
pub open spec fn spec_read_counter_definition(b: Seq<u8>, pos: int) -> PERF_COUNTER_DEFINITION {
    PERF_COUNTER_DEFINITION {
        ByteLength: u32_at(b, pos),
        CounterNameTitleIndex: u32_at(b, pos + 4),
        CounterNameTitle: u32_at(b, pos + 8),
        CounterHelpTitleIndex: u32_at(b, pos + 12),
        CounterHelpTitle: u32_at(b, pos + 16),
        DefaultScale: u32_at(b, pos + 20) as i32,
        DetailLevel: u32_at(b, pos + 24),
        CounterType: u32_at(b, pos + 28),
        CounterSize: u32_at(b, pos + 32),
        CounterOffset: u32_at(b, pos + 36),
    }
}

impl PERF_INSTANCE_DEFINITION {
    pub fn to_bytes(&self) -> (r: Vec<u8>)
        ensures
            r@ == instance_definition_bytes(*self),
            r@.len() == PERF_INSTANCE_DEFINITION_SIZE,
    {
        let mut out: Vec<u8> = Vec::new();
        push_u32(&mut out, self.ByteLength);
        push_u32(&mut out, self.ParentObjectTitleIndex);
        push_u32(&mut out, self.ParentObjectInstance);
        push_u32(&mut out, self.UniqueID as u32);
        push_u32(&mut out, self.NameOffset);
        push_u32(&mut out, self.NameLength);
        assert(out@ =~= instance_definition_bytes(*self));
        out
    }

    /// The definition at `pos`.
    pub fn read(b: &[u8], pos: usize) -> (r: Self)
        requires
            pos + PERF_INSTANCE_DEFINITION_SIZE <= b@.len(),
        ensures
            r == spec_read_instance_definition(b@, pos as int),
    {
        let len = b.len();
        assert(len == b@.len());
        PERF_INSTANCE_DEFINITION {
            ByteLength: read_u32(b, pos),
            ParentObjectTitleIndex: read_u32(b, pos + 4),
            ParentObjectInstance: read_u32(b, pos + 8),
            UniqueID: read_u32(b, pos + 12) as i32,
            NameOffset: read_u32(b, pos + 16),
            NameLength: read_u32(b, pos + 20),
        }
    }
}

/// The instance definition whose bytes start at `pos`.
pub open spec fn spec_read_instance_definition(b: Seq<u8>, pos: int) -> PERF_INSTANCE_DEFINITION {
    PERF_INSTANCE_DEFINITION {
        ByteLength: u32_at(b, pos),
        ParentObjectTitleIndex: u32_at(b, pos + 4),
        ParentObjectInstance: u32_at(b, pos + 8),
        UniqueID: u32_at(b, pos + 12) as i32,
        NameOffset: u32_at(b, pos + 16),
        NameLength: u32_at(b, pos + 20),
    }
}

impl PERF_COUNTER_BLOCK {
    pub fn to_bytes(&self) -> (r: Vec<u8>)
        ensures
            r@ == counter_block_bytes(*self),
            r@.len() == PERF_COUNTER_BLOCK_SIZE,
    {
        let mut out: Vec<u8> = Vec::new();
        push_u32(&mut out, self.ByteLength);
        out
    }

    /// The block header at `pos`.
    pub fn read(b: &[u8], pos: usize) -> (r: Self)
        requires
            pos + PERF_COUNTER_BLOCK_SIZE <= b@.len(),
        ensures
            r.ByteLength == u32_at(b@, pos as int),
    {
        let len = b.len();
        assert(len == b@.len());
        PERF_COUNTER_BLOCK { ByteLength: read_u32(b, pos) }
    }
}

impl PERF_DATA_BLOCK {
    /// The header at `pos`.
    pub fn read(b: &[u8], pos: usize) -> (r: Self)
        requires
            pos + PERF_DATA_BLOCK_SIZE <= b@.len(),
        ensures
            r == spec_read_data_block(b@, pos as int),
    {
        let len = b.len();
        assert(len == b@.len());
        PERF_DATA_BLOCK {
            Signature: [read_u16(b, pos), read_u16(b, pos + 2), read_u16(b, pos + 4), read_u16(b, pos + 6)],
            LittleEndian: read_u32(b, pos + 8),
            Version: read_u32(b, pos + 12),
            Revision: read_u32(b, pos + 16),
            TotalByteLength: read_u32(b, pos + 20),
            HeaderLength: read_u32(b, pos + 24),
            NumObjectTypes: read_u32(b, pos + 28),
            DefaultObject: read_u32(b, pos + 32) as i32,
            SystemTime: [
                read_u16(b, pos + 36),
                read_u16(b, pos + 38),
                read_u16(b, pos + 40),
                read_u16(b, pos + 42),
                read_u16(b, pos + 44),
                read_u16(b, pos + 46),
                read_u16(b, pos + 48),
                read_u16(b, pos + 50),
            ],
            PerfTime: read_u64(b, pos + 56) as i64,
            PerfFreq: read_u64(b, pos + 64) as i64,
            PerfTime100nSec: read_u64(b, pos + 72) as i64,
            SystemNameLength: read_u32(b, pos + 80),
            SystemNameOffset: read_u32(b, pos + 84),
        }
    }
}

/// The data block header whose bytes start at `pos`.
pub open spec fn spec_read_data_block(b: Seq<u8>, pos: int) -> PERF_DATA_BLOCK {
    PERF_DATA_BLOCK {
        Signature: [u16_at(b, pos), u16_at(b, pos + 2), u16_at(b, pos + 4), u16_at(b, pos + 6)],
        LittleEndian: u32_at(b, pos + 8),
        Version: u32_at(b, pos + 12),
        Revision: u32_at(b, pos + 16),
        TotalByteLength: u32_at(b, pos + 20),
        HeaderLength: u32_at(b, pos + 24),
        NumObjectTypes: u32_at(b, pos + 28),
        DefaultObject: u32_at(b, pos + 32) as i32,
        SystemTime: [
            u16_at(b, pos + 36),
            u16_at(b, pos + 38),
            u16_at(b, pos + 40),
            u16_at(b, pos + 42),
            u16_at(b, pos + 44),
            u16_at(b, pos + 46),
            u16_at(b, pos + 48),
            u16_at(b, pos + 50),
        ],
        PerfTime: u64_at(b, pos + 56) as i64,
        PerfFreq: u64_at(b, pos + 64) as i64,
        PerfTime100nSec: u64_at(b, pos + 72) as i64,
        SystemNameLength: u32_at(b, pos + 80),
        SystemNameOffset: u32_at(b, pos + 84),
    }
}

/// The number that the two little-endian bytes of `b` from `pos` stand for.
pub open spec fn le_number16(b: Seq<u8>, pos: int) -> int {
    b[pos] + 256 * b[pos + 1]
}

/// The number that the four little-endian bytes of `b` from `pos` stand for.
pub open spec fn le_number(b: Seq<u8>, pos: int) -> int {
    b[pos] + 256 * b[pos + 1] + 65536 * b[pos + 2] + 16777216 * b[pos + 3]
}

/// The number that the eight little-endian bytes of `b` from `pos` stand for.
pub open spec fn le_number64(b: Seq<u8>, pos: int) -> int {
    le_number(b, pos) + 4294967296 * le_number(b, pos + 4)
}

proof fn lemma_bytes_number(b0: u8, b1: u8, b2: u8, b3: u8)
    by (bit_vector)
    ensures
        (b0 as u32) | ((b1 as u32) << 8u32) | ((b2 as u32) << 16u32) | ((b3 as u32) << 24u32) == b0 + 256 * b1
            + 65536 * b2 + 16777216 * b3,
        (b0 as u16) | ((b1 as u16) << 8u16) == b0 + 256 * b1,
{
}

proof fn lemma_words_number(lo: u32, hi: u32, x: u32, y: u64)
    by (bit_vector)
    ensures
        (lo as u64) | ((hi as u64) << 32u64) == lo + 4294967296 * hi,
        (x as i32) as u32 == x,
        (y as i64) as u64 == y,
{
}

/// The bytes of a 16-bit, 32-bit or 64-bit field are read as the little-endian number
/// they stand for.
pub proof fn lemma_fields_are_numbers(b: Seq<u8>, pos: int)
    requires
        0 <= pos,
        pos + 8 <= b.len(),
    ensures
        u16_at(b, pos) == le_number16(b, pos),
        u32_at(b, pos) == le_number(b, pos),
        u32_at(b, pos + 4) == le_number(b, pos + 4),
        (u32_at(b, pos) as i32) as u32 == le_number(b, pos),
        u64_at(b, pos) == le_number64(b, pos),
        (u64_at(b, pos) as i64) as u64 == le_number64(b, pos),
{
    lemma_bytes_number(b[pos], b[pos + 1], b[pos + 2], b[pos + 3]);
    lemma_bytes_number(b[pos + 4], b[pos + 5], b[pos + 6], b[pos + 7]);
    lemma_words_number(u32_at(b, pos), u32_at(b, pos + 4), u32_at(b, pos), u64_at(b, pos));
}

/// The bytes of a 16-bit or 32-bit field near the end are read as the number they stand
/// for.
proof fn lemma_short_fields_are_numbers(b: Seq<u8>, pos: int)
    requires
        0 <= pos,
        pos + 4 <= b.len(),
    ensures
        u16_at(b, pos) == le_number16(b, pos),
        u16_at(b, pos + 2) == le_number16(b, pos + 2),
        u32_at(b, pos) == le_number(b, pos),
        (u32_at(b, pos) as i32) as u32 == le_number(b, pos),
{
    lemma_bytes_number(b[pos], b[pos + 1], b[pos + 2], b[pos + 3]);
    lemma_bytes_number(b[pos + 2], b[pos + 3], 0, 0);
    lemma_words_number(0, 0, u32_at(b, pos), 0);
}

/// Law: a counter definition is read as `PERF_COUNTER_DEFINITION` is laid out by Windows:
/// ten 32-bit little-endian fields in the order of the C structure, the counter type at
/// byte 28, its size at byte 32 and its offset at byte 36.
pub proof fn lemma_counter_definition_layout(b: Seq<u8>, pos: int)
    requires
        0 <= pos,
        pos + 40 <= b.len(),
    ensures
        ({
            let d = spec_read_counter_definition(b, pos);
            &&& d.ByteLength == le_number(b, pos)
            &&& d.CounterNameTitleIndex == le_number(b, pos + 4)
            &&& d.CounterNameTitle == le_number(b, pos + 8)
            &&& d.CounterHelpTitleIndex == le_number(b, pos + 12)
            &&& d.CounterHelpTitle == le_number(b, pos + 16)
            &&& d.DefaultScale as u32 == le_number(b, pos + 20)
            &&& d.DetailLevel == le_number(b, pos + 24)
            &&& d.CounterType == le_number(b, pos + 28)
            &&& d.CounterSize == le_number(b, pos + 32)
            &&& d.CounterOffset == le_number(b, pos + 36)
        }),
{
    lemma_fields_are_numbers(b, pos);
    lemma_fields_are_numbers(b, pos + 8);
    lemma_fields_are_numbers(b, pos + 16);
    lemma_fields_are_numbers(b, pos + 20);
    lemma_fields_are_numbers(b, pos + 24);
    lemma_fields_are_numbers(b, pos + 32);
}

/// Law: an object header is read as `PERF_OBJECT_TYPE` is laid out by Windows: twelve
/// 32-bit fields in the order of the C structure, then the 64-bit time at byte 48 and the
/// 64-bit frequency at byte 56, all little-endian.
pub proof fn lemma_object_type_layout(b: Seq<u8>, pos: int)
    requires
        0 <= pos,
        pos + 64 <= b.len(),
    ensures
        ({
            let o = spec_read_object_type(b, pos);
            &&& o.TotalByteLength == le_number(b, pos)
            &&& o.DefinitionLength == le_number(b, pos + 4)
            &&& o.HeaderLength == le_number(b, pos + 8)
            &&& o.ObjectNameTitleIndex == le_number(b, pos + 12)
            &&& o.ObjectNameTitle == le_number(b, pos + 16)
            &&& o.ObjectHelpTitleIndex == le_number(b, pos + 20)
            &&& o.ObjectHelpTitle == le_number(b, pos + 24)
            &&& o.DetailLevel == le_number(b, pos + 28)
            &&& o.NumCounters == le_number(b, pos + 32)
            &&& o.DefaultCounter as u32 == le_number(b, pos + 36)
            &&& o.NumInstances as u32 == le_number(b, pos + 40)
            &&& o.CodePage == le_number(b, pos + 44)
            &&& o.PerfTime as u64 == le_number64(b, pos + 48)
            &&& o.PerfFreq as u64 == le_number64(b, pos + 56)
        }),
{
    lemma_fields_are_numbers(b, pos);
    lemma_fields_are_numbers(b, pos + 8);
    lemma_fields_are_numbers(b, pos + 16);
    lemma_fields_are_numbers(b, pos + 24);
    lemma_fields_are_numbers(b, pos + 32);
    lemma_fields_are_numbers(b, pos + 36);
    lemma_fields_are_numbers(b, pos + 40);
    lemma_fields_are_numbers(b, pos + 48);
    lemma_fields_are_numbers(b, pos + 56);
}

/// Law: an instance definition is read as `PERF_INSTANCE_DEFINITION` is laid out by
/// Windows: six 32-bit little-endian fields in the order of the C structure.
pub proof fn lemma_instance_definition_layout(b: Seq<u8>, pos: int)
    requires
        0 <= pos,
        pos + 24 <= b.len(),
    ensures
        ({
            let d = spec_read_instance_definition(b, pos);
            &&& d.ByteLength == le_number(b, pos)
            &&& d.ParentObjectTitleIndex == le_number(b, pos + 4)
            &&& d.ParentObjectInstance == le_number(b, pos + 8)
            &&& d.UniqueID as u32 == le_number(b, pos + 12)
            &&& d.NameOffset == le_number(b, pos + 16)
            &&& d.NameLength == le_number(b, pos + 20)
        }),
{
    lemma_fields_are_numbers(b, pos);
    lemma_fields_are_numbers(b, pos + 8);
    lemma_fields_are_numbers(b, pos + 12);
    lemma_fields_are_numbers(b, pos + 16);
}

/// Law: a data block header is read as `PERF_DATA_BLOCK` is laid out by Windows on 64-bit
/// systems: the four UTF-16 units of its signature, six 32-bit fields, the eight 16-bit
/// fields of its system time from byte 36, then, aligned, the 64-bit times and frequency
/// from byte 56 and two 32-bit fields, all little-endian.
#[verifier::spinoff_prover]
#[verifier::rlimit(50)]
pub proof fn lemma_data_block_layout(b: Seq<u8>, pos: int)
    requires
        0 <= pos,
        pos + 88 <= b.len(),
    ensures
        ({
            let d = spec_read_data_block(b, pos);
            &&& forall|i: int| 0 <= i < 4 ==> d.Signature[i] == #[trigger] le_number16(b, pos + 2 * i)
            &&& d.LittleEndian == le_number(b, pos + 8)
            &&& d.Version == le_number(b, pos + 12)
            &&& d.Revision == le_number(b, pos + 16)
            &&& d.TotalByteLength == le_number(b, pos + 20)
            &&& d.HeaderLength == le_number(b, pos + 24)
            &&& d.NumObjectTypes == le_number(b, pos + 28)
            &&& d.DefaultObject as u32 == le_number(b, pos + 32)
            &&& forall|i: int| 0 <= i < 8 ==> d.SystemTime[i] == #[trigger] le_number16(b, pos + 36 + 2 * i)
            &&& d.PerfTime as u64 == le_number64(b, pos + 56)
            &&& d.PerfFreq as u64 == le_number64(b, pos + 64)
            &&& d.PerfTime100nSec as u64 == le_number64(b, pos + 72)
            &&& d.SystemNameLength == le_number(b, pos + 80)
            &&& d.SystemNameOffset == le_number(b, pos + 84)
        }),
{
    lemma_short_fields_are_numbers(b, pos);
    lemma_short_fields_are_numbers(b, pos + 4);
    lemma_fields_are_numbers(b, pos + 8);
    lemma_fields_are_numbers(b, pos + 16);
    lemma_fields_are_numbers(b, pos + 24);
    lemma_fields_are_numbers(b, pos + 28);
    lemma_fields_are_numbers(b, pos + 32);
    lemma_short_fields_are_numbers(b, pos + 36);
    lemma_short_fields_are_numbers(b, pos + 40);
    lemma_short_fields_are_numbers(b, pos + 44);
    lemma_short_fields_are_numbers(b, pos + 48);
    lemma_fields_are_numbers(b, pos + 56);
    lemma_fields_are_numbers(b, pos + 64);
    lemma_fields_are_numbers(b, pos + 72);
    lemma_fields_are_numbers(b, pos + 80);
    let d = spec_read_data_block(b, pos);
    assert forall|i: int| 0 <= i < 4 implies d.Signature[i] == #[trigger] le_number16(b, pos + 2 * i) by {
        if i == 0 {
        } else if i == 1 {
        } else if i == 2 {
        } else {
        }
    }
    assert forall|i: int| 0 <= i < 8 implies d.SystemTime[i] == #[trigger] le_number16(b, pos + 36 + 2 * i) by {
        if i == 0 {
        } else if i == 1 {
        } else if i == 2 {
        } else if i == 3 {
        } else if i == 4 {
        } else if i == 5 {
        } else if i == 6 {
        } else {
        }
    }
}

} // verus!
