//! Counter data providers: the layout of the performance data that a provider writes.
#![allow(non_snake_case)]
use vstd::prelude::*;

use crate::error::{WinError, WinErrorView};
use crate::format::has_no_nul;
use crate::perf::nom::{spec_object_type, ObjectDataView, ObjectTypeView};
use crate::perf::roundtrip::{
    block_ok, body_parts, instance_ok, instance_parts, instances_ok, is_object_image,
    body_view, lemma_block_image_ok, lemma_images_parse, lemma_object_image_layout, lemma_object_reads_back,
    objects_at, ObjectBody,
};
use crate::morse::{is_ascii_whitespace, spec_is_ascii_whitespace};
use crate::perf::raw::{
    PERF_COUNTER_BLOCK, PERF_COUNTER_DEFINITION, PERF_COUNTER_DEFINITION_SIZE,
    PERF_INSTANCE_DEFINITION, PERF_INSTANCE_DEFINITION_SIZE, PERF_OBJECT_TYPE,
    PERF_OBJECT_TYPE_SIZE, counter_block_bytes, counter_definition_bytes,
    instance_definition_bytes, le32, object_type_bytes, push_u32,
};
use crate::perf::types::{CounterTypeDefinition, DetailLevel, Size, detail_raw, size_from_raw};
use crate::perf::useful::{CounterId, InstanceId, PERF_NO_UNIQUE_ID};
use crate::perf::values::{CounterValue, CounterValueView, value_bytes};

verus! {

/// Alignment of `PERF_OBJECT_TYPE`, in bytes.
pub const ALIGN_OF_PERF_OBJECT_TYPE: usize = 8;

/// Alignment of `PERF_INSTANCE_DEFINITION`, in bytes.
pub const ALIGN_OF_PERF_INSTANCE_DEFINITION: usize = 4;

/// Alignment of a double word, in bytes.
pub const ALIGN_OF_DWORD: usize = 4;

/// The least multiple of `align` that is at least `size`.
pub open spec fn spec_align_to(size: int, align: int) -> int {
    ((size + align - 1) / align) * align
}

/// Bump `size` up to the closest multiple of `align`; no-op if `size` is already one.
pub fn align_to(size: usize, align: usize) -> (r: usize)
    requires
        align > 0,
        size + align - 1 <= usize::MAX,
    ensures
        r == spec_align_to(size as int, align as int),
        r >= size,
        r % align == 0,
        r < size + align,
{
    let n = size + (align - 1);
    let q = n / align;
    proof {
        let qi = q as int;
        let ai = align as int;
        let ni = n as int;
        assert(qi * ai <= ni && ni < qi * ai + ai) by (nonlinear_arith)
            requires
                qi == ni / ai,
                ai > 0,
                ni >= 0,
        ;
        assert((qi * ai) % ai == 0) by (nonlinear_arith)
            requires
                ai > 0,
        ;
    }
    q * align
}

/// `align_to` for double words.
pub fn align_to_dword(size: usize) -> (r: usize)
    requires
        size + 3 <= usize::MAX,
    ensures
        r == spec_align_to(size as int, 4),
        r >= size,
        r % 4 == 0,
        r < size + 4,
{
    align_to(size, ALIGN_OF_DWORD)
}


/// `ERROR_MORE_DATA`: the buffer is too small.
pub const ERROR_MORE_DATA: u32 = 234;

/// `ERROR_ACCESS_DENIED`, reported for a failure while writing the data.
pub const ERROR_ACCESS_DENIED: u32 = 5;

/// The time of a sample and the frequency of its clock.
#[derive(Copy, Clone, Debug)]
pub struct PerfClock {
    pub PerfTime: i64,
    pub PerfFreq: i64,
}

/// A source of sample times.
pub trait PerfTimeProvider {
    fn get_time(&self) -> PerfClock;
}

/// Always time zero, with no frequency.
pub struct ZeroTimeProvider;

impl PerfTimeProvider for ZeroTimeProvider {
    fn get_time(&self) -> (r: PerfClock)
        ensures
            r.PerfTime == 0 && r.PerfFreq == 0,
    {
        PerfClock { PerfTime: 0, PerfFreq: 0 }
    }
}

/// The time from a tick count in milliseconds since the system started.
pub fn clock_from_tick_count(millis: u32) -> (r: PerfClock)
    ensures
        r.PerfTime == millis as i64 && r.PerfFreq == 1000,
{
    PerfClock { PerfTime: millis as i64, PerfFreq: 1_000 }
}

/// The description of an object that a provider publishes.
#[derive(Debug, Clone, Copy)]
pub struct PerfObjectTypeTemplate {
    pub name_offset: u32,
    pub help_offset: u32,
    pub detail_level: DetailLevel,
    pub DefaultCounter: i32,
}

/// The sum of the byte lengths of counter definitions.
pub open spec fn counters_length(cs: Seq<PERF_COUNTER_DEFINITION>) -> int
    decreases cs.len(),
{
    if cs.len() == 0 {
        0
    } else {
        counters_length(cs.drop_last()) + cs.last().ByteLength
    }
}

/// The sum of the byte lengths of instance definitions.
pub open spec fn instances_length(is: Seq<PERF_INSTANCE_DEFINITION>) -> int
    decreases is.len(),
{
    if is.len() == 0 {
        0
    } else {
        instances_length(is.drop_last()) + is.last().ByteLength
    }
}

/// The header of an object with these counters, instances and counter block.
pub open spec fn object_layout(
    t: PerfObjectTypeTemplate,
    first_counter: u32,
    counters: Seq<PERF_COUNTER_DEFINITION>,
    instances: Option<Seq<PERF_INSTANCE_DEFINITION>>,
    block: PERF_COUNTER_BLOCK,
    now: PerfClock,
) -> PERF_OBJECT_TYPE {
    let instances_len = match instances {
        Some(is) => instances_length(is),
        None => 0,
    };
    let blocks_len = match instances {
        Some(is) => is.len() * block.ByteLength,
        None => block.ByteLength as int,
    };
    let definition = PERF_OBJECT_TYPE_SIZE + counters_length(counters);
    let total = spec_align_to(definition + instances_len + blocks_len, 8);
    PERF_OBJECT_TYPE {
        TotalByteLength: total as u32,
        DefinitionLength: definition as u32,
        HeaderLength: PERF_OBJECT_TYPE_SIZE as u32,
        ObjectNameTitleIndex: (first_counter + t.name_offset) as u32,
        ObjectNameTitle: 0,
        ObjectHelpTitleIndex: (first_counter + t.help_offset) as u32,
        ObjectHelpTitle: 0,
        DetailLevel: detail_raw(t.detail_level),
        NumCounters: counters.len() as u32,
        DefaultCounter: t.DefaultCounter,
        NumInstances: match instances {
            Some(is) => is.len() as i32,
            None => -1i32,
        },
        CodePage: 0,
        PerfTime: now.PerfTime,
        PerfFreq: now.PerfFreq,
    }
}

/// The bytes parse back as one object that takes all of them, with the header and the
/// counter definitions that a provider lays out for the object template `t`, its first
/// counter at `first_counter`, its counters laid out from the templates `ts`, at time
/// `now`.
#[verifier::opaque]
pub open spec fn object_written(
    b: Seq<u8>,
    t: PerfObjectTypeTemplate,
    first_counter: u32,
    ts: Seq<PerfCounterDefinitionTemplate>,
    now: PerfClock,
) -> bool {
    &&& spec_object_type(b, 0) matches Some((end, v))
    &&& end == b.len()
    &&& v.counters == counters_block(first_counter, ts).1
    &&& v.raw.ObjectNameTitleIndex == first_counter + t.name_offset
    &&& v.raw.ObjectHelpTitleIndex == first_counter + t.help_offset
    &&& v.raw.DetailLevel == detail_raw(t.detail_level)
    &&& v.raw.DefaultCounter == t.DefaultCounter
    &&& v.raw.NumCounters == ts.len()
    &&& v.raw.PerfTime == now.PerfTime
    &&& v.raw.PerfFreq == now.PerfFreq
}

/// An object laid out from its template and parsed back from its bytes is written as
/// `object_written` says.
proof fn lemma_object_written(
    b: Seq<u8>,
    t: PerfObjectTypeTemplate,
    first_counter: u32,
    ts: Seq<PerfCounterDefinitionTemplate>,
    now: PerfClock,
    object: PERF_OBJECT_TYPE,
    instances: Option<Seq<PERF_INSTANCE_DEFINITION>>,
    block: PERF_COUNTER_BLOCK,
    data: ObjectDataView,
)
    requires
        counters_fit(first_counter, ts),
        object_fits(t, first_counter, counters_block(first_counter, ts).1, instances, block),
        object == object_layout(t, first_counter, counters_block(first_counter, ts).1, instances, block, now),
        spec_object_type(b, 0) == Some(
            (b.len() as int, ObjectTypeView { raw: object, counters: counters_block(first_counter, ts).1, data }),
        ),
    ensures
        object_written(b, t, first_counter, ts, now),
{
    reveal(object_written);
    lemma_counters_block_grows(first_counter, ts);
}

/// The sizes of an object fit in the 32-bit fields of its header.
pub open spec fn object_fits(
    t: PerfObjectTypeTemplate,
    first_counter: u32,
    counters: Seq<PERF_COUNTER_DEFINITION>,
    instances: Option<Seq<PERF_INSTANCE_DEFINITION>>,
    block: PERF_COUNTER_BLOCK,
) -> bool {
    let instances_len = match instances {
        Some(is) => instances_length(is),
        None => 0,
    };
    let blocks_len = match instances {
        Some(is) => is.len() * block.ByteLength,
        None => block.ByteLength as int,
    };
    &&& first_counter + t.name_offset <= u32::MAX
    &&& first_counter + t.help_offset <= u32::MAX
    &&& PERF_OBJECT_TYPE_SIZE + counters_length(counters) + instances_len + blocks_len + 7
        <= u32::MAX
    &&& counters.len() <= u32::MAX
    &&& (instances matches Some(is) ==> is.len() <= i32::MAX)
}

fn sum_counters_length(counters: &[PERF_COUNTER_DEFINITION]) -> (r: u64)
    requires
        counters@.len() <= u32::MAX,
    ensures
        r == counters_length(counters@),
{
    let mut sum: u64 = 0;
    let mut i: usize = 0;
    while i < counters.len()
        invariant
            i <= counters@.len() <= u32::MAX,
            sum == counters_length(counters@.take(i as int)),
            sum <= i * 0xFFFF_FFFFu64,
        decreases counters.len() - i,
    {
        proof {
            assert(counters@.take(i + 1).drop_last() =~= counters@.take(i as int));
            assert(i * 0xFFFF_FFFFu64 + 0xFFFF_FFFFu64 == (i + 1) * 0xFFFF_FFFFu64) by (nonlinear_arith);
            assert((i + 1) * 0xFFFF_FFFFu64 <= 0x1_0000_0000u64 * 0xFFFF_FFFFu64) by (nonlinear_arith)
                requires i + 1 <= 0x1_0000_0000u64;
        }
        sum = sum + counters[i].ByteLength as u64;
        i = i + 1;
    }
    proof {
        assert(counters@.take(counters@.len() as int) =~= counters@);
    }
    sum
}

fn sum_instances_length(instances: &[PERF_INSTANCE_DEFINITION]) -> (r: u64)
    requires
        instances@.len() <= u32::MAX,
    ensures
        r == instances_length(instances@),
{
    let mut sum: u64 = 0;
    let mut i: usize = 0;
    while i < instances.len()
        invariant
            i <= instances@.len() <= u32::MAX,
            sum == instances_length(instances@.take(i as int)),
            sum <= i * 0xFFFF_FFFFu64,
        decreases instances.len() - i,
    {
        proof {
            assert(instances@.take(i + 1).drop_last() =~= instances@.take(i as int));
            assert(i * 0xFFFF_FFFFu64 + 0xFFFF_FFFFu64 == (i + 1) * 0xFFFF_FFFFu64) by (nonlinear_arith);
            assert((i + 1) * 0xFFFF_FFFFu64 <= 0x1_0000_0000u64 * 0xFFFF_FFFFu64) by (nonlinear_arith)
                requires i + 1 <= 0x1_0000_0000u64;
        }
        sum = sum + instances[i].ByteLength as u64;
        i = i + 1;
    }
    proof {
        assert(instances@.take(instances@.len() as int) =~= instances@);
    }
    sum
}

impl PerfObjectTypeTemplate {
    /// An object whose help follows its name in the symbols.
    pub fn new(name_offset: u32) -> (r: Self)
        requires
            name_offset < u32::MAX,
        ensures
            r.name_offset == name_offset,
            r.help_offset == name_offset + 1,
            r.detail_level == DetailLevel::Novice,
            r.DefaultCounter == -1,
    {
        PerfObjectTypeTemplate {
            name_offset,
            help_offset: name_offset + 1,
            detail_level: DetailLevel::Novice,
            DefaultCounter: -1,
        }
    }

    pub fn with_detail_level(self, detail_level: DetailLevel) -> (r: Self)
        ensures
            r == (PerfObjectTypeTemplate { detail_level, ..self }),
    {
        PerfObjectTypeTemplate { detail_level, ..self }
    }

    pub fn with_default_counter(self, default_counter: i32) -> (r: Self)
        ensures
            r == (PerfObjectTypeTemplate { DefaultCounter: default_counter, ..self }),
    {
        PerfObjectTypeTemplate { DefaultCounter: default_counter, ..self }
    }

    /// The header of the object with these counters, instances (`None`: no instances,
    /// a single counter block) and counter block. The total length is aligned to 8.
    pub fn build_layout(
        &self,
        first_counter: u32,
        counters: &[PERF_COUNTER_DEFINITION],
        instances: Option<&[PERF_INSTANCE_DEFINITION]>,
        block: &PERF_COUNTER_BLOCK,
        now: PerfClock,
    ) -> (r: PERF_OBJECT_TYPE)
        requires
            object_fits(
                *self,
                first_counter,
                counters@,
                match instances {
                    Some(is) => Some(is@),
                    None => None,
                },
                *block,
            ),
        ensures
            r == object_layout(
                *self,
                first_counter,
                counters@,
                match instances {
                    Some(is) => Some(is@),
                    None => None,
                },
                *block,
                now,
            ),
    {
        let counters_length = sum_counters_length(counters);
        let instances_length: u64 = match instances {
            Some(it) => sum_instances_length(it),
            None => 0,
        };
        let blocks_length: u64 = match instances {
            Some(it) => {
                proof {
                    assert(it@.len() * block.ByteLength <= 0xFFFF_FFFFu64 * 0xFFFF_FFFFu64) by (nonlinear_arith)
                        requires it@.len() <= u32::MAX;
                }
                (it.len() as u64) * (block.ByteLength as u64)
            },
            None => block.ByteLength as u64,
        };
        let header_length = PERF_OBJECT_TYPE_SIZE as u64;
        let definition_length = header_length + counters_length;
        let content = (definition_length + instances_length + blocks_length) as usize;
        let total = align_to(content, 8);
        PERF_OBJECT_TYPE {
            TotalByteLength: total as u32,
            DefinitionLength: definition_length as u32,
            HeaderLength: header_length as u32,
            ObjectNameTitleIndex: first_counter + self.name_offset,
            ObjectNameTitle: 0,
            ObjectHelpTitleIndex: first_counter + self.help_offset,
            ObjectHelpTitle: 0,
            DetailLevel: self.detail_level.into_raw(),
            NumCounters: counters.len() as u32,
            DefaultCounter: self.DefaultCounter,
            NumInstances: match instances {
                Some(it) => it.len() as i32,
                None => -1,
            },
            CodePage: 0,
            PerfTime: now.PerfTime,
            PerfFreq: now.PerfFreq,
        }
    }
}

/// The description of a counter that a provider publishes.
#[derive(Copy, Clone, Debug)]
pub struct PerfCounterDefinitionTemplate {
    pub name_offset: u32,
    pub help_offset: u32,
    pub DefaultScale: i32,
    pub DetailLevel: DetailLevel,
    pub counter_type: CounterTypeDefinition,
    pub CounterSize: Option<u32>,
}

/// The definition of a counter described by `t`, at `offset` in the counter block.
pub open spec fn counter_layout(t: PerfCounterDefinitionTemplate, first_counter: u32, offset: u32) -> PERF_COUNTER_DEFINITION {
    PERF_COUNTER_DEFINITION {
        ByteLength: PERF_COUNTER_DEFINITION_SIZE as u32,
        CounterNameTitleIndex: (t.name_offset + first_counter) as u32,
        CounterNameTitle: 0,
        CounterHelpTitleIndex: (t.help_offset + first_counter) as u32,
        CounterHelpTitle: 0,
        DefaultScale: t.DefaultScale,
        DetailLevel: detail_raw(t.DetailLevel),
        CounterType: t.counter_type.raw(),
        CounterSize: spec_align_to(t.CounterSize.unwrap() as int, 4) as u32,
        CounterOffset: offset,
    }
}

/// The size of a counter's data as its size field gives it.
pub open spec fn size_in_bytes(s: Size) -> Option<u32> {
    match s {
        Size::Dword => Some(4u32),
        Size::Large => Some(8u32),
        Size::Zero => Some(0u32),
        Size::Var => None,
    }
}

impl PerfCounterDefinitionTemplate {
    /// A counter of this type, whose help follows its name in the symbols; its size is
    /// the one of its type, if fixed.
    pub fn new(name_offset: u32, CounterType: CounterTypeDefinition) -> (r: Self)
        requires
            name_offset < u32::MAX,
        ensures
            r.name_offset == name_offset,
            r.help_offset == name_offset + 1,
            r.DefaultScale == 0,
            r.DetailLevel == DetailLevel::Novice,
            r.counter_type == CounterType,
            r.CounterSize == size_in_bytes(size_from_raw(CounterType.raw())),
    {
        let CounterSize = match CounterType.size().size_of() {
            Some(it) => Some(it as u32),
            None => None,
        };
        Self {
            name_offset,
            help_offset: name_offset + 1,
            DefaultScale: 0,
            DetailLevel: DetailLevel::default(),
            counter_type: CounterType,
            CounterSize,
        }
    }

    pub fn with_default_scale(self, scale: i32) -> (r: Self)
        ensures
            r == (PerfCounterDefinitionTemplate { DefaultScale: scale, ..self }),
    {
        PerfCounterDefinitionTemplate { DefaultScale: scale, ..self }
    }

    pub fn with_detail_level(self, detail_level: DetailLevel) -> (r: Self)
        ensures
            r == (PerfCounterDefinitionTemplate { DetailLevel: detail_level, ..self }),
    {
        PerfCounterDefinitionTemplate { DetailLevel: detail_level, ..self }
    }

    /// Set the size of the counter's data.
    pub fn with_size(&mut self, size: u32)
        ensures
            *final(self) == (PerfCounterDefinitionTemplate { CounterSize: Some(size), ..*old(self) }),
    {
        self.CounterSize = Some(size);
    }

    /// The definition of the counter at `offset` in the counter block. The size is
    /// aligned to a double word. The size must be known.
    pub fn build_layout(&self, first_counter: u32, offset: u32) -> (r: PERF_COUNTER_DEFINITION)
        requires
            self.CounterSize is Some,
            self.CounterSize.unwrap() + 3 <= u32::MAX,
            self.name_offset + first_counter <= u32::MAX,
            self.help_offset + first_counter <= u32::MAX,
        ensures
            r == counter_layout(*self, first_counter, offset),
    {
        let size = self.CounterSize.unwrap();
        let counter_size = align_to_dword(size as usize);
        PERF_COUNTER_DEFINITION {
            ByteLength: PERF_COUNTER_DEFINITION_SIZE as u32,
            CounterNameTitleIndex: self.name_offset + first_counter,
            CounterNameTitle: 0,
            CounterHelpTitleIndex: self.help_offset + first_counter,
            CounterHelpTitle: 0,
            DefaultScale: self.DefaultScale,
            DetailLevel: self.DetailLevel.into_raw(),
            CounterType: self.counter_type.into_raw(),
            CounterSize: counter_size as u32,
            CounterOffset: offset,
        }
    }
}


/// The description of an instance that a provider publishes.
#[derive(Debug)]
pub struct PerfInstanceDefinitionTemplate {
    pub ParentObjectTitleIndex: u32,
    pub ParentObjectInstance: u32,
    pub UniqueID: i32,
    /// The name, without its nul terminator; it holds no nul.
    pub Name: Vec<u16>,
}

/// The little-endian bytes of UTF-16 code units.
pub open spec fn utf16_bytes(units: Seq<u16>) -> Seq<u8>
    decreases units.len(),
{
    if units.len() == 0 {
        seq![]
    } else {
        utf16_bytes(units.drop_last()) + seq![(units.last() & 0xff) as u8, (units.last() >> 8u16) as u8]
    }
}

/// `n` zero bytes.
pub open spec fn zeros(n: nat) -> Seq<u8> {
    Seq::new(n, |i: int| 0u8)
}

/// `base` with `bytes` written over it from `pos`.
pub open spec fn overwrite(base: Seq<u8>, pos: int, bytes: Seq<u8>) -> Seq<u8> {
    base.take(pos) + bytes + base.skip(pos + bytes.len())
}

/// The definition of an instance described by `t`: the structure, then the name with
/// its nul, the whole aligned to four bytes.
pub open spec fn instance_layout(t: PerfInstanceDefinitionTemplate) -> PERF_INSTANCE_DEFINITION {
    let name_size = (t.Name@.len() + 1) * 2;
    PERF_INSTANCE_DEFINITION {
        ByteLength: spec_align_to(PERF_INSTANCE_DEFINITION_SIZE + name_size, 4) as u32,
        ParentObjectTitleIndex: t.ParentObjectTitleIndex,
        ParentObjectInstance: t.ParentObjectInstance,
        UniqueID: t.UniqueID,
        NameOffset: PERF_INSTANCE_DEFINITION_SIZE as u32,
        NameLength: name_size as u32,
    }
}

/// The bytes of an instance: its definition, its name with the nul at `NameOffset`, zeros
/// up to `ByteLength`.
pub open spec fn instance_image(def: PERF_INSTANCE_DEFINITION, name: Seq<u16>) -> Seq<u8> {
    overwrite(
        overwrite(zeros(def.ByteLength as nat), 0, instance_definition_bytes(def)),
        def.NameOffset as int,
        utf16_bytes(name.push(0)),
    )
}

/// The instance image can be written: the definition and the name fit in its length, and
/// the name takes `NameLength` bytes.
pub open spec fn instance_image_fits(def: PERF_INSTANCE_DEFINITION, name: Seq<u16>) -> bool {
    &&& PERF_INSTANCE_DEFINITION_SIZE <= def.ByteLength
    &&& def.NameOffset + def.NameLength <= def.ByteLength
    &&& def.NameLength == utf16_bytes(name.push(0)).len()
}

proof fn lemma_utf16_bytes_len(units: Seq<u16>)
    ensures
        utf16_bytes(units).len() == 2 * units.len(),
    decreases units.len(),
{
    if units.len() > 0 {
        lemma_utf16_bytes_len(units.drop_last());
    }
}

/// The bytes of UTF-16 code units.
fn units_to_bytes(units: &[u16]) -> (r: Vec<u8>)
    ensures
        r@ == utf16_bytes(units@),
{
    let mut out: Vec<u8> = Vec::new();
    let mut i: usize = 0;
    while i < units.len()
        invariant
            i <= units@.len(),
            out@ == utf16_bytes(units@.take(i as int)),
        decreases units.len() - i,
    {
        let u = units[i];
        out.push((u & 0xff) as u8);
        out.push((u >> 8) as u8);
        proof {
            assert(units@.take(i + 1).drop_last() =~= units@.take(i as int));
            assert(out@ =~= utf16_bytes(units@.take(i + 1)));
        }
        i = i + 1;
    }
    proof {
        assert(units@.take(units@.len() as int) =~= units@);
    }
    out
}

/// `base` with `bytes` written over it from `pos`, if they fit.
fn overwrite_vec(base: &mut Vec<u8>, pos: usize, bytes: &[u8]) -> (r: bool)
    ensures
        r == (pos + bytes@.len() <= old(base)@.len()),
        r ==> final(base)@ == overwrite(old(base)@, pos as int, bytes@),
        !r ==> final(base)@ == old(base)@,
{
    if pos > base.len() || bytes.len() > base.len() - pos {
        return false;
    }
    let end = pos + bytes.len();
    let mut i: usize = 0;
    while i < bytes.len()
        invariant
            end == pos + bytes@.len(),
            pos + bytes@.len() <= old(base)@.len(),
            base@.len() == old(base)@.len(),
            i <= bytes@.len(),
            forall|j: int| 0 <= j < pos ==> base@[j] == old(base)@[j],
            forall|j: int| pos + bytes@.len() <= j < base@.len() ==> base@[j] == old(base)@[j],
            forall|j: int| 0 <= j < i ==> base@[pos + j] == bytes@[j],
            forall|j: int| pos + i <= j < pos + bytes@.len() ==> base@[j] == old(base)@[j],
        decreases bytes.len() - i,
    {
        base.set(pos + i, bytes[i]);
        i = i + 1;
    }
    assert(base@ =~= overwrite(old(base)@, pos as int, bytes@));
    true
}

/// `n` zero bytes.
fn zero_bytes(n: usize) -> (r: Vec<u8>)
    ensures
        r@ == zeros(n as nat),
{
    let mut out: Vec<u8> = Vec::new();
    let mut i: usize = 0;
    while i < n
        invariant
            i <= n,
            out@ == zeros(i as nat),
        decreases n - i,
    {
        out.push(0);
        proof {
            assert(out@ =~= zeros((i + 1) as nat));
        }
        i = i + 1;
    }
    out
}

impl PerfInstanceDefinitionTemplate {
    /// An instance of this name, without parent and without unique ID.
    pub fn new(Name: Vec<u16>) -> (r: Self)
        ensures
            r.ParentObjectTitleIndex == 0,
            r.ParentObjectInstance == 0,
            r.UniqueID == PERF_NO_UNIQUE_ID,
            r.Name@ == Name@,
    {
        PerfInstanceDefinitionTemplate {
            ParentObjectTitleIndex: 0,
            ParentObjectInstance: 0,
            UniqueID: PERF_NO_UNIQUE_ID,
            Name,
        }
    }

    /// The same description owning its name; names are always owned here.
    pub fn into_owned(self) -> (r: Self)
        ensures
            r == self,
    {
        self
    }

    pub fn with_unique_id(self, unique_id: i32) -> (r: Self)
        ensures
            r == (PerfInstanceDefinitionTemplate { UniqueID: unique_id, ..self }),
    {
        PerfInstanceDefinitionTemplate { UniqueID: unique_id, ..self }
    }

    pub fn with_parent(self, ParentObjectTitleIndex: u32, ParentObjectInstance: u32) -> (r: Self)
        ensures
            r == (PerfInstanceDefinitionTemplate { ParentObjectTitleIndex, ParentObjectInstance, ..self }),
    {
        PerfInstanceDefinitionTemplate { ParentObjectTitleIndex, ParentObjectInstance, ..self }
    }

    /// The definition of the instance.
    pub fn build_layout(&self) -> (r: PERF_INSTANCE_DEFINITION)
        requires
            (self.Name@.len() + 1) * 2 + PERF_INSTANCE_DEFINITION_SIZE + 3 <= u32::MAX,
        ensures
            r == instance_layout(*self),
            instance_image_fits(r, self.Name@),
    {
        let struct_size = PERF_INSTANCE_DEFINITION_SIZE;
        let name_size = (self.Name.len() + 1) * 2;
        let byte_length = align_to(struct_size + name_size, 4);
        proof {
            lemma_utf16_bytes_len(self.Name@.push(0));
        }
        PERF_INSTANCE_DEFINITION {
            ByteLength: byte_length as u32,
            ParentObjectTitleIndex: self.ParentObjectTitleIndex,
            ParentObjectInstance: self.ParentObjectInstance,
            UniqueID: self.UniqueID,
            NameOffset: struct_size as u32,
            NameLength: name_size as u32,
        }
    }

    /// The bytes of the instance with the definition `def`, if they fit.
    pub fn write_with_layout(&self, def: &PERF_INSTANCE_DEFINITION) -> (r: Result<Vec<u8>, ()>)
        ensures
            r is Ok <==> instance_image_fits(*def, self.Name@),
            r matches Ok(bytes) ==> bytes@ == instance_image(*def, self.Name@),
    {
        proof {
            lemma_utf16_bytes_len(self.Name@.push(0));
        }
        if def.ByteLength < PERF_INSTANCE_DEFINITION_SIZE as u32 {
            return Err(());
        }
        if def.NameOffset as u64 + def.NameLength as u64 > def.ByteLength as u64 {
            return Err(());
        }
        let mut name = vstd::slice::slice_to_vec(self.Name.as_slice());
        name.push(0);
        let name_bytes = units_to_bytes(name.as_slice());
        if name_bytes.len() != def.NameLength as usize {
            return Err(());
        }
        let mut out = zero_bytes(def.ByteLength as usize);
        let header = def.to_bytes();
        let ok = overwrite_vec(&mut out, 0, header.as_slice());
        let ok2 = overwrite_vec(&mut out, def.NameOffset as usize, name_bytes.as_slice());
        proof {
            assert(name@ == self.Name@.push(0));
        }
        Ok(out)
    }
}

/// The layout of a counter block: its length so far and the definitions of its counters.
pub struct CountersBlockTemplate {
    ByteLength: u32,
    counters: Vec<PERF_COUNTER_DEFINITION>,
}

/// The length of a counter block and the definitions of its counters, laid out one after
/// the other after the block header, each aligned to a double word.
pub open spec fn counters_block(first_counter: u32, ts: Seq<PerfCounterDefinitionTemplate>) -> (
    int,
    Seq<PERF_COUNTER_DEFINITION>,
)
    decreases ts.len(),
{
    if ts.len() == 0 {
        (4, seq![])
    } else {
        let (len, defs) = counters_block(first_counter, ts.drop_last());
        let def = counter_layout(ts.last(), first_counter, len as u32);
        (len + def.CounterSize, defs.push(def))
    }
}

/// Every counter has a known size, and the indexes and the block length fit in 32 bits.
pub open spec fn counters_fit(first_counter: u32, ts: Seq<PerfCounterDefinitionTemplate>) -> bool
    decreases ts.len(),
{
    if ts.len() == 0 {
        true
    } else {
        let t = ts.last();
        &&& counters_fit(first_counter, ts.drop_last())
        &&& t.CounterSize is Some
        &&& t.name_offset + first_counter <= u32::MAX
        &&& t.help_offset + first_counter <= u32::MAX
        &&& counters_block(first_counter, ts.drop_last()).0 + t.CounterSize.unwrap() + 3
            <= u32::MAX
    }
}

proof fn lemma_counters_block_grows(first_counter: u32, ts: Seq<PerfCounterDefinitionTemplate>)
    requires
        counters_fit(first_counter, ts),
    ensures
        4 <= counters_block(first_counter, ts).0 <= u32::MAX,
        counters_block(first_counter, ts).1.len() == ts.len(),
    decreases ts.len(),
{
    if ts.len() > 0 {
        lemma_counters_block_grows(first_counter, ts.drop_last());
    }
}

/// The counters of a laid-out block: forty-byte definitions whose values lie after the
/// block header.
pub proof fn lemma_counters_block_shape(first_counter: u32, ts: Seq<PerfCounterDefinitionTemplate>)
    requires
        counters_fit(first_counter, ts),
    ensures
        forall|i: int| 0 <= i < counters_block(first_counter, ts).1.len() ==> (#[trigger] counters_block(first_counter, ts).1[i]).ByteLength == 40
            && counters_block(first_counter, ts).1[i].CounterOffset >= 4,
        counters_length(counters_block(first_counter, ts).1) == 40 * counters_block(first_counter, ts).1.len(),
    decreases ts.len(),
{
    if ts.len() > 0 {
        lemma_counters_block_shape(first_counter, ts.drop_last());
        lemma_counters_block_grows(first_counter, ts.drop_last());
        let defs = counters_block(first_counter, ts).1;
        let prev = counters_block(first_counter, ts.drop_last()).1;
        assert(defs.drop_last() =~= prev);
        assert forall|i: int| 0 <= i < defs.len() implies (#[trigger] defs[i]).ByteLength == 40 && defs[i].CounterOffset >= 4 by {
            if i < prev.len() {
                assert(defs[i] == prev[i]);
            }
        }
    }
}

/// Whether some code unit is nul.
fn has_nul(units: &[u16]) -> (r: bool)
    ensures
        r == !has_no_nul(units@),
{
    let mut i: usize = 0;
    while i < units.len()
        invariant
            i <= units@.len(),
            forall|j: int| 0 <= j < i ==> units@[j] != 0,
        decreases units.len() - i,
    {
        if units[i] == 0 {
            return true;
        }
        i = i + 1;
    }
    false
}

/// The views of byte strings.
pub open spec fn bytes_views(parts: Seq<Vec<u8>>) -> Seq<Seq<u8>> {
    parts.map_values(|p: Vec<u8>| p@)
}

impl CountersBlockTemplate {
    pub closed spec fn byte_length(&self) -> u32 {
        self.ByteLength
    }

    pub closed spec fn definitions(&self) -> Seq<PERF_COUNTER_DEFINITION> {
        self.counters@
    }

    /// An empty block: just its header.
    pub fn new() -> (r: Self)
        ensures
            r.byte_length() == 4,
            r.definitions() == Seq::<PERF_COUNTER_DEFINITION>::empty(),
    {
        CountersBlockTemplate { ByteLength: 4, counters: Vec::new() }
    }

    /// Add a counter; the block grows by its size aligned to a double word.
    pub fn add_counter(&mut self, counter: PERF_COUNTER_DEFINITION)
        requires
            old(self).byte_length() + spec_align_to(counter.CounterSize as int, 4) <= u32::MAX,
        ensures
            final(self).byte_length() == old(self).byte_length() + spec_align_to(
                counter.CounterSize as int,
                4,
            ),
            final(self).definitions() == old(self).definitions().push(counter),
    {
        let size = align_to_dword(counter.CounterSize as usize);
        self.ByteLength = self.ByteLength + size as u32;
        self.counters.push(counter);
    }

    /// Where the next counter goes.
    pub fn offset(&self) -> (r: u32)
        ensures
            r == self.byte_length(),
    {
        self.ByteLength
    }

    pub fn counters(&self) -> (r: &[PERF_COUNTER_DEFINITION])
        ensures
            r@ == self.definitions(),
    {
        self.counters.as_slice()
    }

    pub fn build_layout(&self) -> (r: PERF_COUNTER_BLOCK)
        ensures
            r.ByteLength == self.byte_length(),
    {
        PERF_COUNTER_BLOCK { ByteLength: self.ByteLength }
    }

    /// An empty block to fill: zeros, with its header at the start; `None` when the block
    /// is too short for its header.
    pub fn block_buffer(&self) -> (r: Option<CountersBlockBuffer>)
        ensures
            r is Some <==> 4 <= self.byte_length(),
            r matches Some(b) ==> b.bytes() == block_image(
                self.byte_length(),
                Seq::<PERF_COUNTER_DEFINITION>::empty(),
                Seq::<CounterValue>::empty(),
            ),
    {
        let mut out = zero_bytes(self.ByteLength as usize);
        let header = self.build_layout().to_bytes();
        if !overwrite_vec(&mut out, 0, header.as_slice()) {
            return None;
        }
        Some(CountersBlockBuffer { buffer: out })
    }

    /// The bytes of a block holding `values`, one per counter, each written at its
    /// counter's offset: `None` when a value has not its counter's size or lies beyond
    /// the block.
    pub fn block(&self, values: &[CounterValue]) -> (r: Option<Vec<u8>>)
        requires
            values@.len() == self.definitions().len(),
        ensures
            r is Some <==> block_fits(self.byte_length(), self.definitions(), values@),
            r matches Some(bytes) ==> bytes@ == block_image(
                self.byte_length(),
                self.definitions(),
                values@,
            ),
    {
        proof {
            lemma_block_fits_prefix(self.ByteLength, self.counters@, values@, 0);
            assert(self.counters@.take(0) =~= Seq::<PERF_COUNTER_DEFINITION>::empty());
            assert(values@.take(0) =~= Seq::<CounterValue>::empty());
        }
        let mut block = match self.block_buffer() {
            Some(b) => b,
            None => return None,
        };
        let mut i: usize = 0;
        while i < self.counters.len()
            invariant
                values@.len() == self.counters@.len(),
                i <= self.counters@.len(),
                block.bytes().len() == self.ByteLength,
                block_fits(self.ByteLength, self.counters@.take(i as int), values@.take(i as int)),
                block.bytes() == block_image(self.ByteLength, self.counters@.take(i as int), values@.take(i as int)),
            decreases self.counters.len() - i,
        {
            let def = &self.counters[i];
            proof {
                assert(self.counters@.take(i + 1).drop_last() =~= self.counters@.take(i as int));
                assert(values@.take(i + 1).drop_last() =~= values@.take(i as int));
                assert(self.counters@.take(i + 1).last() == self.counters@[i as int]);
                assert(values@.take(i + 1).last() == values@[i as int]);
                lemma_block_fits_prefix(self.ByteLength, self.counters@, values@, i + 1);
            }
            let is_text = match &values[i] {
                CounterValue::TextUnicode(_) => true,
                CounterValue::TextAscii(_) => true,
                _ => false,
            };
            if is_text {
                return None;
            }
            if block.write(def, &values[i]).is_err() {
                return None;
            }
            i = i + 1;
        }
        proof {
            assert(self.counters@.take(self.counters@.len() as int) =~= self.counters@);
            assert(values@.take(values@.len() as int) =~= values@);
        }
        Some(block.into_bytes())
    }
}

/// A counter block being filled with values: its bytes, its header first.
pub struct CountersBlockBuffer {
    buffer: Vec<u8>,
}

impl CountersBlockBuffer {
    /// The bytes of the block.
    pub closed spec fn bytes(&self) -> Seq<u8> {
        self.buffer@
    }

    /// The length of the block in bytes.
    pub fn len(&self) -> (r: usize)
        ensures
            r == self.bytes().len(),
    {
        self.buffer.len()
    }

    /// Write `value` at the place of the counter `def`; an error, which leaves the block
    /// as it was, when that place lies beyond the block or the value has not the
    /// counter's size. A text is never written.
    pub fn write(&mut self, def: &PERF_COUNTER_DEFINITION, value: &CounterValue) -> (r: Result<(), ()>)
        requires
            def.CounterOffset + def.CounterSize <= old(self).bytes().len() ==> !(value@ is TextUnicode) && !(
            value@ is TextAscii),
        ensures
            r is Ok <==> def.CounterOffset + def.CounterSize <= old(self).bytes().len() && value_fits(*def, value@),
            r is Ok ==> final(self).bytes() == overwrite(old(self).bytes(), def.CounterOffset as int, value_bytes(value@)),
            r is Err ==> final(self).bytes() == old(self).bytes(),
    {
        let offset = def.CounterOffset as usize;
        let length = def.CounterSize as usize;
        if offset > self.buffer.len() || length > self.buffer.len() - offset {
            return Err(());
        }
        let mut slot = zero_bytes(length);
        if value.borrow().write(slot.as_mut_slice()).is_err() {
            return Err(());
        }
        let done = overwrite_vec(&mut self.buffer, offset, slot.as_slice());
        assert(done);
        Ok(())
    }

    /// The bytes of the block.
    pub fn into_bytes(self) -> (r: Vec<u8>)
        ensures
            r@ == self.bytes(),
    {
        self.buffer
    }
}

proof fn lemma_block_fits_prefix(
    len: u32,
    defs: Seq<PERF_COUNTER_DEFINITION>,
    values: Seq<CounterValue>,
    k: int,
)
    requires
        0 <= k <= defs.len(),
        defs.len() == values.len(),
    ensures
        block_fits(len, defs, values) ==> block_fits(len, defs.take(k), values.take(k)),
    decreases defs.len(),
{
    if k < defs.len() {
        lemma_block_fits_prefix(len, defs.drop_last(), values.drop_last(), k);
        assert(defs.drop_last().take(k) =~= defs.take(k));
        assert(values.drop_last().take(k) =~= values.take(k));
    } else {
        assert(defs.take(k) =~= defs);
        assert(values.take(k) =~= values);
    }
}

/// Whether a value can be written into its counter: a number of the counter's size.
pub open spec fn value_fits(def: PERF_COUNTER_DEFINITION, v: CounterValueView) -> bool {
    &&& !(v is TextUnicode) && !(v is TextAscii)
    &&& value_bytes(v).len() == def.CounterSize
}

/// Every value fits its counter and lies within the block.
pub open spec fn block_fits(len: u32, defs: Seq<PERF_COUNTER_DEFINITION>, values: Seq<CounterValue>) -> bool
    decreases defs.len(),
{
    if defs.len() == 0 {
        4 <= len
    } else {
        &&& block_fits(len, defs.drop_last(), values.drop_last())
        &&& value_fits(defs.last(), values.last()@)
        &&& defs.last().CounterOffset + defs.last().CounterSize <= len
    }
}

/// The bytes of a counter block: its header, then each value at its counter's offset,
/// zeros elsewhere.
pub open spec fn block_image(len: u32, defs: Seq<PERF_COUNTER_DEFINITION>, values: Seq<CounterValue>) -> Seq<u8>
    decreases defs.len(),
{
    if defs.len() == 0 {
        overwrite(zeros(len as nat), 0, le32(len))
    } else {
        overwrite(
            block_image(len, defs.drop_last(), values.drop_last()),
            defs.last().CounterOffset as int,
            value_bytes(values.last()@),
        )
    }
}


/// The counter block of counters described by `templates`, with the definitions of the
/// counters in it.
#[verifier::spinoff_prover]
#[verifier::rlimit(40)]
pub fn layout_of_counters(first_counter: u32, templates: &[PerfCounterDefinitionTemplate]) -> (r: CountersBlockTemplate)
    requires
        counters_fit(first_counter, templates@),
    ensures
        r.byte_length() == counters_block(first_counter, templates@).0,
        r.definitions() == counters_block(first_counter, templates@).1,
{
    let mut block = CountersBlockTemplate::new();
    let mut i: usize = 0;
    while i < templates.len()
        invariant
            i <= templates@.len(),
            counters_fit(first_counter, templates@),
            block.byte_length() == counters_block(first_counter, templates@.take(i as int)).0,
            block.definitions() == counters_block(first_counter, templates@.take(i as int)).1,
        decreases templates.len() - i,
    {
        proof {
            lemma_counters_fit_prefix(first_counter, templates@, i + 1);
            assert(templates@.take(i + 1).drop_last() =~= templates@.take(i as int));
            assert(templates@.take(i + 1).last() == templates@[i as int]);
            lemma_counters_block_grows(first_counter, templates@.take(i as int));
        }
        let counter = templates[i].build_layout(first_counter, block.offset());
        proof {
            lemma_align4_idempotent(counter.CounterSize as int);
        }
        block.add_counter(counter);
        i = i + 1;
    }
    proof {
        assert(templates@.take(templates@.len() as int) =~= templates@);
    }
    block
}

/// A multiple of four is its own alignment to four, and aligning adds less than four.
proof fn lemma_align4_idempotent(x: int)
    requires
        x >= 0,
    ensures
        x % 4 == 0 ==> spec_align_to(x, 4) == x,
        x <= spec_align_to(x, 4) < x + 4,
        spec_align_to(x, 4) % 4 == 0,
        spec_align_to(spec_align_to(x, 4), 4) == spec_align_to(x, 4),
{
    assert(x <= spec_align_to(x, 4) < x + 4) by (nonlinear_arith)
        requires x >= 0;
    assert(spec_align_to(x, 4) % 4 == 0) by (nonlinear_arith)
        requires x >= 0;
    let y = spec_align_to(x, 4);
    assert(y % 4 == 0 ==> spec_align_to(y, 4) == y) by (nonlinear_arith)
        requires y >= 0;
    assert(x % 4 == 0 ==> spec_align_to(x, 4) == x) by (nonlinear_arith)
        requires x >= 0;
}

proof fn lemma_counters_fit_prefix(first_counter: u32, ts: Seq<PerfCounterDefinitionTemplate>, k: int)
    requires
        0 <= k <= ts.len(),
        counters_fit(first_counter, ts),
    ensures
        counters_fit(first_counter, ts.take(k)),
    decreases ts.len(),
{
    if k < ts.len() {
        lemma_counters_fit_prefix(first_counter, ts.drop_last(), k);
        assert(ts.drop_last().take(k) =~= ts.take(k));
    } else {
        assert(ts.take(k) =~= ts);
    }
}

/// Whether the counters described by `templates` can be laid out.
pub fn counters_can_be_laid_out(first_counter: u32, templates: &[PerfCounterDefinitionTemplate]) -> (r: bool)
    ensures
        r == counters_fit(first_counter, templates@),
{
    let mut len: u64 = 4;
    let mut i: usize = 0;
    while i < templates.len()
        invariant
            i <= templates@.len(),
            counters_fit(first_counter, templates@.take(i as int)),
            len == counters_block(first_counter, templates@.take(i as int)).0,
            len <= u32::MAX,
        decreases templates.len() - i,
    {
        let t = &templates[i];
        proof {
            assert(templates@.take(i + 1).drop_last() =~= templates@.take(i as int));
            assert(templates@.take(i + 1).last() == templates@[i as int]);
        }
        let size = match t.CounterSize {
            Some(size) => size,
            None => {
                proof {
                    if counters_fit(first_counter, templates@) {
                        lemma_counters_fit_prefix(first_counter, templates@, i + 1);
                    }
                }
                return false;
            },
        };
        if t.name_offset as u64 + first_counter as u64 > u32::MAX as u64
            || t.help_offset as u64 + first_counter as u64 > u32::MAX as u64
            || len + size as u64 + 3 > u32::MAX as u64 {
            proof {
                if counters_fit(first_counter, templates@) {
                    lemma_counters_fit_prefix(first_counter, templates@, i + 1);
                }
            }
            return false;
        }
        let aligned = align_to_dword(size as usize) as u64;
        len = len + aligned;
        i = i + 1;
    }
    proof {
        assert(templates@.take(templates@.len() as int) =~= templates@);
    }
    true
}

/// The definitions of the instances described by `templates`.
pub fn layout_of_instances(templates: &[PerfInstanceDefinitionTemplate]) -> (r: Vec<PERF_INSTANCE_DEFINITION>)
    requires
        forall|i: int| 0 <= i < templates@.len() ==> (#[trigger] templates@[i]).Name@.len() < 0x1000_0000,
    ensures
        r@.len() == templates@.len(),
        forall|i: int| 0 <= i < r@.len() ==> #[trigger] r@[i] == instance_layout(templates@[i])
            && instance_image_fits(r@[i], templates@[i].Name@),
{
    let mut out: Vec<PERF_INSTANCE_DEFINITION> = Vec::new();
    let mut i: usize = 0;
    while i < templates.len()
        invariant
            i <= templates@.len(),
            forall|j: int| 0 <= j < templates@.len() ==> (#[trigger] templates@[j]).Name@.len() < 0x1000_0000,
            out@.len() == i,
            forall|j: int| 0 <= j < i ==> #[trigger] out@[j] == instance_layout(templates@[j])
                && instance_image_fits(out@[j], templates@[j].Name@),
        decreases templates.len() - i,
    {
        out.push(templates[i].build_layout());
        i = i + 1;
    }
    out
}

/// The bytes of counter definitions, one after the other.
pub open spec fn definitions_bytes(defs: Seq<PERF_COUNTER_DEFINITION>) -> Seq<u8>
    decreases defs.len(),
{
    if defs.len() == 0 {
        seq![]
    } else {
        definitions_bytes(defs.drop_last()) + counter_definition_bytes(defs.last())
    }
}

/// Byte strings one after the other.
pub open spec fn concat_bytes(parts: Seq<Seq<u8>>) -> Seq<u8>
    decreases parts.len(),
{
    if parts.len() == 0 {
        seq![]
    } else {
        concat_bytes(parts.drop_last()) + parts.last()
    }
}

/// What an object is made of: its header, its counter definitions and its instances and
/// counter blocks.
pub open spec fn object_content(
    object: PERF_OBJECT_TYPE,
    defs: Seq<PERF_COUNTER_DEFINITION>,
    parts: Seq<Seq<u8>>,
) -> Seq<u8> {
    object_type_bytes(object) + definitions_bytes(defs) + concat_bytes(parts)
}

/// The bytes of an object: its content, then zeros up to its total length.
pub open spec fn object_image(
    object: PERF_OBJECT_TYPE,
    defs: Seq<PERF_COUNTER_DEFINITION>,
    parts: Seq<Seq<u8>>,
) -> Seq<u8> {
    overwrite(zeros(object.TotalByteLength as nat), 0, object_content(object, defs, parts))
}

/// The bytes of an object with its header, its counter definitions and its instances and
/// counter blocks (`parts`, in order), if they fit in its total length.
pub fn object_bytes(object: &PERF_OBJECT_TYPE, defs: &[PERF_COUNTER_DEFINITION], parts: &[Vec<u8>]) -> (r: Option<Vec<u8>>)
    ensures
        r is Some <==> object_content(*object, defs@, bytes_views(parts@)).len() <= object.TotalByteLength,
        r matches Some(b) ==> b@ == object_image(*object, defs@, bytes_views(parts@)),
{
    let ghost views = bytes_views(parts@);
    let mut content = object.to_bytes();
    let mut i: usize = 0;
    while i < defs.len()
        invariant
            i <= defs@.len(),
            content@ == object_type_bytes(*object) + definitions_bytes(defs@.take(i as int)),
        decreases defs.len() - i,
    {
        let bytes = defs[i].to_bytes();
        let mut j: usize = 0;
        let ghost before = content@;
        while j < bytes.len()
            invariant
                j <= bytes@.len(),
                content@ == before + bytes@.take(j as int),
            decreases bytes.len() - j,
        {
            content.push(bytes[j]);
            proof {
                assert(bytes@.take(j + 1) =~= bytes@.take(j as int).push(bytes@[j as int]));
            }
            j = j + 1;
        }
        proof {
            assert(bytes@.take(bytes@.len() as int) =~= bytes@);
            assert(defs@.take(i + 1).drop_last() =~= defs@.take(i as int));
            assert(content@ =~= object_type_bytes(*object) + definitions_bytes(defs@.take(i + 1)));
        }
        i = i + 1;
    }
    proof {
        assert(defs@.take(defs@.len() as int) =~= defs@);
    }
    let ghost head = content@;
    let mut k: usize = 0;
    while k < parts.len()
        invariant
            k <= parts@.len(),
            views == bytes_views(parts@),
            content@ == head + concat_bytes(views.take(k as int)),
        decreases parts.len() - k,
    {
        let part = &parts[k];
        let mut j: usize = 0;
        let ghost before = content@;
        while j < part.len()
            invariant
                j <= part@.len(),
                content@ == before + part@.take(j as int),
            decreases part.len() - j,
        {
            content.push(part[j]);
            proof {
                assert(part@.take(j + 1) =~= part@.take(j as int).push(part@[j as int]));
            }
            j = j + 1;
        }
        proof {
            assert(part@.take(part@.len() as int) =~= part@);
            assert(views.take(k + 1).drop_last() =~= views.take(k as int));
            assert(views.take(k + 1).last() == part@);
            assert(content@ =~= head + concat_bytes(views.take(k + 1)));
        }
        k = k + 1;
    }
    proof {
        assert(views.take(views.len() as int) =~= views);
        assert(content@ =~= object_content(*object, defs@, views));
    }
    let mut out = zero_bytes(object.TotalByteLength as usize);
    if overwrite_vec(&mut out, 0, content.as_slice()) {
        Some(out)
    } else {
        None
    }
}

/// The definitions of the instances that templates describe.
pub open spec fn instance_layouts(is: Seq<PerfInstanceDefinitionTemplate>) -> Seq<PERF_INSTANCE_DEFINITION> {
    is.map_values(|t: PerfInstanceDefinitionTemplate| instance_layout(t))
}

/// The templates of an optional list of instances.
pub open spec fn templates_view(instances: Option<&[PerfInstanceDefinitionTemplate]>) -> Option<Seq<PerfInstanceDefinitionTemplate>> {
    match instances {
        Some(is) => Some(is@),
        None => None,
    }
}

/// Every instance name is short enough to be laid out and holds no nul.
pub open spec fn names_writable(is: Seq<PerfInstanceDefinitionTemplate>) -> bool {
    forall|j: int| 0 <= j < is.len() ==> (#[trigger] is[j]).Name@.len() < 0x1000_0000 && has_no_nul(is[j].Name@)
}

/// The instances, if any, can be written: `names_writable`.
pub open spec fn instances_writable(instances: Option<Seq<PerfInstanceDefinitionTemplate>>) -> bool {
    match instances {
        Some(is) => names_writable(is),
        None => true,
    }
}

/// The number of counter blocks of an object: one per instance, or a single one for an
/// object without instances.
pub open spec fn blocks_count(instances: Option<Seq<PerfInstanceDefinitionTemplate>>) -> nat {
    match instances {
        Some(is) => is.len(),
        None => 1,
    }
}

/// Rows of counter values, one per counter block.
pub open spec fn value_rows(rows: Seq<Vec<CounterValue>>) -> Seq<Seq<CounterValue>> {
    rows.map_values(|row: Vec<CounterValue>| row@)
}

/// Every row of values fits the counter block.
pub open spec fn rows_fit(len: u32, defs: Seq<PERF_COUNTER_DEFINITION>, rows: Seq<Seq<CounterValue>>) -> bool {
    forall|j: int| 0 <= j < rows.len() ==> block_fits(len, defs, #[trigger] rows[j])
}

/// Each instance's definition and name, with the counter block of its row of values.
pub open spec fn instance_items(
    len: u32,
    defs: Seq<PERF_COUNTER_DEFINITION>,
    is: Seq<PerfInstanceDefinitionTemplate>,
    rows: Seq<Seq<CounterValue>>,
) -> Seq<(PERF_INSTANCE_DEFINITION, Seq<u16>, Seq<u8>)> {
    Seq::new(is.len(), |j: int| (instance_layout(is[j]), is[j].Name@, block_image(len, defs, rows[j])))
}

/// What follows the counter definitions of an object: its single counter block, or each
/// instance followed by its counter block.
pub open spec fn object_parts(
    len: u32,
    defs: Seq<PERF_COUNTER_DEFINITION>,
    instances: Option<Seq<PerfInstanceDefinitionTemplate>>,
    rows: Seq<Seq<CounterValue>>,
) -> Seq<Seq<u8>> {
    match instances {
        Some(is) => instance_parts(instance_items(len, defs, is, rows)),
        None => seq![block_image(len, defs, rows[0])],
    }
}

/// What writing an object gives, with `room` bytes left for it: the bytes of the object
/// `t` with its first counter at `first_counter`, the counters that the templates `ts`
/// describe, the instances (if any) and one row of counter values per counter block; or
/// the code of the error. `ERROR_ACCESS_DENIED` when the counters or the instances cannot
/// be laid out or the sizes do not fit the header; then `ERROR_MORE_DATA` when the object
/// is longer than `room`; then `ERROR_ACCESS_DENIED` when a value does not fit its
/// counter.
#[verifier::opaque]
pub open spec fn object_built(
    t: PerfObjectTypeTemplate,
    first_counter: u32,
    ts: Seq<PerfCounterDefinitionTemplate>,
    instances: Option<Seq<PerfInstanceDefinitionTemplate>>,
    rows: Seq<Seq<CounterValue>>,
    now: PerfClock,
    room: int,
) -> Result<Seq<u8>, u32> {
    let len = counters_block(first_counter, ts).0 as u32;
    let defs = counters_block(first_counter, ts).1;
    let block = PERF_COUNTER_BLOCK { ByteLength: len };
    let layouts = match instances {
        Some(is) => Some(instance_layouts(is)),
        None => None,
    };
    let object = object_layout(t, first_counter, defs, layouts, block, now);
    let parts = object_parts(len, defs, instances, rows);
    if !counters_fit(first_counter, ts) || !instances_writable(instances) || !object_fits(
        t,
        first_counter,
        defs,
        layouts,
        block,
    ) {
        Err(ERROR_ACCESS_DENIED)
    } else if object.TotalByteLength > room {
        Err(ERROR_MORE_DATA)
    } else if !rows_fit(len, defs, rows) || object_content(object, defs, parts).len() > object.TotalByteLength {
        Err(ERROR_ACCESS_DENIED)
    } else {
        Ok(object_image(object, defs, parts))
    }
}

/// One more instance that reads back, with its counter block, after instances that do.
proof fn lemma_instance_items_step(items: Seq<(PERF_INSTANCE_DEFINITION, Seq<u16>, Seq<u8>)>, j: int)
    requires
        0 <= j < items.len(),
        instances_ok(items.take(j)),
        instance_ok(items[j].0, items[j].1),
        block_ok(items[j].2),
    ensures
        instances_ok(items.take(j + 1)),
        instance_parts(items.take(j + 1)) == instance_parts(items.take(j)) + seq![
            instance_image(items[j].0, items[j].1),
            items[j].2,
        ],
{
    let next = items.take(j + 1);
    assert(next.drop_last() =~= items.take(j));
    assert forall|i: int| 0 <= i < next.len() implies instance_ok((#[trigger] next[i]).0, next[i].1)
        && block_ok(next[i].2) by {
        if i < j {
            assert(next[i] == items.take(j)[i]);
        }
    }
}

/// The bytes of an object, built from its first counter, the templates of its counters
/// and instances and one row of counter values per counter block, if they fit in `room`
/// bytes: as `object_built` says, error codes included. They parse back as one object
/// that takes all of them.
#[verifier::spinoff_prover]
#[verifier::rlimit(40)]
pub fn build_object(
    t: &PerfObjectTypeTemplate,
    first_counter: u32,
    counter_templates: &[PerfCounterDefinitionTemplate],
    instances: Option<&[PerfInstanceDefinitionTemplate]>,
    rows: &[Vec<CounterValue>],
    now: PerfClock,
    room: usize,
) -> (r: Result<Vec<u8>, WinError>)
    requires
        rows@.len() == blocks_count(templates_view(instances)),
        forall|j: int| 0 <= j < rows@.len() ==> (#[trigger] rows@[j])@.len() == counter_templates@.len(),
    ensures
        match r {
            Ok(b) => object_built(*t, first_counter, counter_templates@, templates_view(instances), value_rows(rows@), now, room as int)
                == Ok::<Seq<u8>, u32>(b@),
            Err(e) => object_built(*t, first_counter, counter_templates@, templates_view(instances), value_rows(rows@), now, room as int)
                == Err::<Seq<u8>, u32>(e@.code()),
        },
        r matches Ok(b) ==> b@.len() <= room && is_object_image(b@),
        r matches Ok(b) ==> (spec_object_type(b@, 0) matches Some((end, _)) && end == b@.len()),
        r matches Ok(b) ==> object_written(b@, *t, first_counter, counter_templates@, now),
{
    let ghost ts = counter_templates@;
    let ghost insts = templates_view(instances);
    let ghost vrows = value_rows(rows@);
    let ghost built = object_built(*t, first_counter, ts, insts, vrows, now, room as int);
    if !counters_can_be_laid_out(first_counter, counter_templates) {
        assert(built == Err::<Seq<u8>, u32>(ERROR_ACCESS_DENIED)) by {
            reveal(object_built);
        }
        return Err(error_internal());
    }
    let counters_block_template = layout_of_counters(first_counter, counter_templates);
    proof {
        lemma_counters_block_grows(first_counter, ts);
        lemma_counters_block_shape(first_counter, ts);
    }
    let ghost len = counters_block_template.byte_length();
    let ghost defs = counters_block_template.definitions();
    let counters_layout = counters_block_template.build_layout();
    assert(counters_layout == PERF_COUNTER_BLOCK { ByteLength: len });
    let instance_defs: Option<Vec<PERF_INSTANCE_DEFINITION>> = match instances {
        None => None,
        Some(templates) => {
            if !names_can_be_written(templates) {
                assert(built == Err::<Seq<u8>, u32>(ERROR_ACCESS_DENIED)) by {
                    reveal(object_built);
                }
                return Err(error_internal());
            }
            let layouts = layout_of_instances(templates);
            proof {
                assert(layouts@ =~= instance_layouts(templates@));
            }
            Some(layouts)
        },
    };
    let ghost layouts = match insts {
        Some(is) => Some(instance_layouts(is)),
        None => None::<Seq<PERF_INSTANCE_DEFINITION>>,
    };
    let layouts_slice = match &instance_defs {
        Some(v) => Some(v.as_slice()),
        None => None,
    };
    assert(match layouts_slice { Some(is) => Some(is@), None => None::<Seq<PERF_INSTANCE_DEFINITION>> } == layouts);
    if !object_fits_exec(t, first_counter, counters_block_template.counters(), layouts_slice, &counters_layout) {
        assert(built == Err::<Seq<u8>, u32>(ERROR_ACCESS_DENIED)) by {
            reveal(object_built);
        }
        return Err(error_internal());
    }
    let object = t.build_layout(first_counter, counters_block_template.counters(), layouts_slice, &counters_layout, now);
    assert(object == object_layout(*t, first_counter, defs, layouts, counters_layout, now));
    if object.TotalByteLength as usize > room {
        assert(built == Err::<Seq<u8>, u32>(ERROR_MORE_DATA)) by {
            reveal(object_built);
        }
        return Err(error_small_buffer());
    }
    let ghost mut body = ObjectBody::Single(seq![]);
    let parts: Vec<Vec<u8>> = match instances {
        None => {
            match counters_block_template.block(rows[0].as_slice()) {
                Some(block) => {
                    proof {
                        lemma_block_image_ok(len, defs, vrows[0]);
                        body = ObjectBody::Single(block@);
                        assert forall|j: int| 0 <= j < vrows.len() implies block_fits(len, defs, #[trigger] vrows[j]) by {
                            assert(j == 0);
                        }
                    }
                    let mut parts: Vec<Vec<u8>> = Vec::new();
                    parts.push(block);
                    proof {
                        assert(bytes_views(parts@) =~= body_parts(body));
                    }
                    parts
                },
                None => {
                    proof {
                        assert(!block_fits(len, defs, vrows[0]));
                    }
                    assert(built == Err::<Seq<u8>, u32>(ERROR_ACCESS_DENIED)) by {
                        reveal(object_built);
                    }
                    return Err(error_internal());
                },
            }
        },
        Some(templates) => {
            let instances_vec = match &instance_defs {
                Some(v) => v,
                None => {
                    assert(built == Err::<Seq<u8>, u32>(ERROR_ACCESS_DENIED)) by {
                        reveal(object_built);
                    }
                    return Err(error_internal());
                },
            };
            match write_instances(&counters_block_template, templates, instances_vec.as_slice(), rows) {
                Some(parts) => {
                    proof {
                        body = ObjectBody::Many(instance_items(len, defs, templates@, vrows));
                    }
                    parts
                },
                None => {
                    assert(built == Err::<Seq<u8>, u32>(ERROR_ACCESS_DENIED)) by {
                        reveal(object_built);
                    }
                    return Err(error_internal());
                },
            }
        },
    };
    proof {
        assert(bytes_views(parts@) == object_parts(len, defs, insts, vrows));
        assert(bytes_views(parts@) == body_parts(body));
        assert(rows_fit(len, defs, vrows));
    }
    match object_bytes(&object, counters_block_template.counters(), parts.as_slice()) {
        Some(bytes) => {
            proof {
                lemma_object_image_layout(object, defs, body_parts(body));
                assert(bytes@.subrange(0, object.TotalByteLength as int) =~= bytes@);
                lemma_object_reads_back(bytes@, 0, object, defs, body);
                assert(is_object_image(bytes@));
                lemma_object_written(bytes@, *t, first_counter, ts, now, object, layouts, counters_layout, body_view(body));
                assert(built == Ok::<Seq<u8>, u32>(bytes@)) by {
                    reveal(object_built);
                }
            }
            Ok(bytes)
        },
        None => {
            assert(built == Err::<Seq<u8>, u32>(ERROR_ACCESS_DENIED)) by {
                reveal(object_built);
            }
            Err(error_internal())
        },
    }
}

/// Whether every instance name is short enough to be laid out and holds no nul.
fn names_can_be_written(templates: &[PerfInstanceDefinitionTemplate]) -> (r: bool)
    ensures
        r == names_writable(templates@),
{
    let mut k: usize = 0;
    while k < templates.len()
        invariant
            k <= templates@.len(),
            forall|j: int| 0 <= j < k ==> (#[trigger] templates@[j]).Name@.len() < 0x1000_0000
                && has_no_nul(templates@[j].Name@),
        decreases templates.len() - k,
    {
        if templates[k].Name.len() >= 0x1000_0000 || has_nul(templates[k].Name.as_slice()) {
            proof {
                let tk = templates@[k as int];
                assert(!(tk.Name@.len() < 0x1000_0000 && has_no_nul(tk.Name@)));
            }
            return false;
        }
        k = k + 1;
    }
    true
}

/// Each instance followed by the counter block of its row of values, if every row fits
/// the block.
fn write_instances(
    block_template: &CountersBlockTemplate,
    templates: &[PerfInstanceDefinitionTemplate],
    layouts: &[PERF_INSTANCE_DEFINITION],
    rows: &[Vec<CounterValue>],
) -> (r: Option<Vec<Vec<u8>>>)
    requires
        templates@.len() == rows@.len(),
        layouts@ == instance_layouts(templates@),
        forall|i: int| 0 <= i < layouts@.len() ==> instance_image_fits(#[trigger] layouts@[i], templates@[i].Name@),
        forall|i: int| 0 <= i < rows@.len() ==> (#[trigger] rows@[i])@.len() == block_template.definitions().len(),
        forall|i: int| 0 <= i < block_template.definitions().len() ==> (#[trigger] block_template.definitions()[i]).CounterOffset >= 4,
        forall|i: int| 0 <= i < templates@.len() ==> has_no_nul((#[trigger] templates@[i]).Name@),
    ensures
        r is Some <==> rows_fit(block_template.byte_length(), block_template.definitions(), value_rows(rows@)),
        r matches Some(parts) ==> bytes_views(parts@) == instance_parts(
            instance_items(block_template.byte_length(), block_template.definitions(), templates@, value_rows(rows@)),
        ),
        r matches Some(parts) ==> instances_ok(
            instance_items(block_template.byte_length(), block_template.definitions(), templates@, value_rows(rows@)),
        ),
{
    let ghost len = block_template.byte_length();
    let ghost defs = block_template.definitions();
    let ghost vrows = value_rows(rows@);
    let ghost all_items = instance_items(len, defs, templates@, vrows);
    proof {
        assert(all_items.take(0) =~= Seq::<(PERF_INSTANCE_DEFINITION, Seq<u16>, Seq<u8>)>::empty());
    }
    let mut parts: Vec<Vec<u8>> = Vec::new();
    let mut j: usize = 0;
    while j < templates.len()
        invariant
            j <= templates@.len(),
            templates@.len() == rows@.len(),
            layouts@ == instance_layouts(templates@),
            forall|i: int| 0 <= i < layouts@.len() ==> instance_image_fits(#[trigger] layouts@[i], templates@[i].Name@),
            forall|i: int| 0 <= i < rows@.len() ==> (#[trigger] rows@[i])@.len() == defs.len(),
            len == block_template.byte_length(),
            defs == block_template.definitions(),
            vrows == value_rows(rows@),
            all_items == instance_items(len, defs, templates@, vrows),
            forall|i: int| 0 <= i < defs.len() ==> (#[trigger] defs[i]).CounterOffset >= 4,
            forall|i: int| 0 <= i < templates@.len() ==> has_no_nul((#[trigger] templates@[i]).Name@),
            instances_ok(all_items.take(j as int)),
            forall|i: int| 0 <= i < j ==> block_fits(len, defs, #[trigger] vrows[i]),
            bytes_views(parts@) == instance_parts(all_items.take(j as int)),
        decreases templates.len() - j,
    {
        let image = match templates[j].write_with_layout(&layouts[j]) {
            Ok(bytes) => bytes,
            Err(_) => {
                proof {
                    assert(instance_image_fits(layouts@[j as int], templates@[j as int].Name@));
                }
                return None;
            },
        };
        let block = match block_template.block(rows[j].as_slice()) {
            Some(block) => block,
            None => {
                proof {
                    assert(!block_fits(len, defs, vrows[j as int]));
                }
                return None;
            },
        };
        proof {
            lemma_block_image_ok(len, defs, vrows[j as int]);
            assert(all_items[j as int] == (layouts@[j as int], templates@[j as int].Name@, block@));
            lemma_instance_items_step(all_items, j as int);
        }
        let ghost done = bytes_views(parts@);
        parts.push(image);
        parts.push(block);
        proof {
            assert(bytes_views(parts@) =~= done + seq![image@, block@]);
        }
        j = j + 1;
    }
    proof {
        assert(all_items.take(templates@.len() as int) =~= all_items);
    }
    Some(parts)
}

/// Write the bytes that `build_object` builds into `buffer` from `at` and give their
/// length; on an error the buffer is left as it was.
#[verifier::spinoff_prover]
fn place_object(
    t: &PerfObjectTypeTemplate,
    first_counter: u32,
    counter_templates: &[PerfCounterDefinitionTemplate],
    instances: Option<&[PerfInstanceDefinitionTemplate]>,
    rows: &[Vec<CounterValue>],
    now: PerfClock,
    buffer: &mut [u8],
    at: usize,
) -> (r: Result<usize, WinError>)
    requires
        at <= old(buffer)@.len(),
        rows@.len() == blocks_count(templates_view(instances)),
        forall|j: int| 0 <= j < rows@.len() ==> (#[trigger] rows@[j])@.len() == counter_templates@.len(),
    ensures
        final(buffer)@.len() == old(buffer)@.len(),
        r matches Err(e) ==> final(buffer)@ == old(buffer)@ && object_built(*t, first_counter, counter_templates@,
            templates_view(instances), value_rows(rows@), now, old(buffer)@.len() - at) == Err::<Seq<u8>, u32>(e@.code()),
        r matches Ok(n) ==> at + n <= old(buffer)@.len() && object_built(*t, first_counter, counter_templates@,
            templates_view(instances), value_rows(rows@), now, old(buffer)@.len() - at) == Ok::<Seq<u8>, u32>(
            final(buffer)@.subrange(at as int, at + n),
        ),
        r matches Ok(n) ==> final(buffer)@.take(at as int) == old(buffer)@.take(at as int),
        r matches Ok(n) ==> final(buffer)@.skip(at + n) == old(buffer)@.skip(at + n),
        r matches Ok(n) ==> is_object_image(final(buffer)@.subrange(at as int, at + n)),
        r matches Ok(n) ==> object_written(final(buffer)@.subrange(at as int, at + n), *t, first_counter, counter_templates@, now),
{
    let bytes = match build_object(t, first_counter, counter_templates, instances, rows, now, buffer.len() - at) {
        Ok(bytes) => bytes,
        Err(e) => return Err(e),
    };
    let ghost before = buffer@;
    let copied = copy_into(buffer, at, bytes.as_slice());
    proof {
        assert(copied);
        assert(buffer@.subrange(at as int, at + bytes@.len()) =~= bytes@);
        assert(buffer@.take(at as int) =~= before.take(at as int));
        assert(buffer@.skip(at + bytes@.len()) =~= before.skip(at + bytes@.len()));
    }
    Ok(bytes.len())
}

/// What a query to a provider asks for.
#[derive(Clone, Debug)]
pub enum QueryType {
    /// All the objects.
    Global,
    /// Costly objects; none here.
    Costly,
    /// Objects of another computer; none here.
    Foreign,
    /// The objects of these name indexes.
    Items(Vec<u32>),
}

/// The mathematical value of a query.
pub enum QueryView {
    Global,
    Costly,
    Foreign,
    Items(Seq<u32>),
}

impl View for QueryType {
    type V = QueryView;

    open spec fn view(&self) -> QueryView {
        match self {
            QueryType::Global => QueryView::Global,
            QueryType::Costly => QueryView::Costly,
            QueryType::Foreign => QueryView::Foreign,
            QueryType::Items(v) => QueryView::Items(v@),
        }
    }
}

/// The words of `s` between runs of ASCII whitespace, `cur` being the word in progress.
pub open spec fn words_from(s: Seq<char>, cur: Seq<char>) -> Seq<Seq<char>>
    decreases s.len(),
{
    if s.len() == 0 {
        if cur.len() == 0 { seq![] } else { seq![cur] }
    } else if spec_is_ascii_whitespace(s[0]) {
        (if cur.len() == 0 { Seq::<Seq<char>>::empty() } else { seq![cur] }) + words_from(s.drop_first(), seq![])
    } else {
        words_from(s.drop_first(), cur.push(s[0]))
    }
}

/// The words of `s` between runs of ASCII whitespace.
pub open spec fn ascii_words(s: Seq<char>) -> Seq<Seq<char>> {
    words_from(s, seq![])
}

pub open spec fn is_digit(c: char) -> bool {
    '0' <= c <= '9'
}

/// The number written with the decimal digits `d`.
pub open spec fn digits_value(d: Seq<char>) -> int
    decreases d.len(),
{
    if d.len() == 0 {
        0
    } else {
        digits_value(d.drop_last()) * 10 + (d.last() as int - '0' as int)
    }
}

/// What `u32::from_str` gives for a word: decimal digits after an optional `+`, at most
/// `u32::MAX`.
pub open spec fn all_digits(s: Seq<char>) -> bool {
    forall|i: int| 0 <= i < s.len() ==> is_digit(#[trigger] s[i])
}

pub open spec fn parse_u32_word(w: Seq<char>) -> Option<u32> {
    let body = if w.len() > 0 && w[0] == '+' { w.drop_first() } else { w };
    if body.len() == 0 || !all_digits(body) {
        None
    } else if digits_value(body) > u32::MAX {
        None
    } else {
        Some(digits_value(body) as u32)
    }
}

/// The numbers of a list of words, if each is one.
pub open spec fn parse_items(ws: Seq<Seq<char>>) -> Option<Seq<u32>>
    decreases ws.len(),
{
    if ws.len() == 0 {
        Some(seq![])
    } else {
        match (parse_items(ws.drop_last()), parse_u32_word(ws.last())) {
            (Some(items), Some(v)) => Some(items.push(v)),
            _ => None,
        }
    }
}

/// The query a string stands for: `Global` (or nothing), `Costly`, `Foreign`, or
/// numbers separated by whitespace.
pub open spec fn spec_parse_query(s: Seq<char>) -> Result<QueryView, ()> {
    if s == "Global"@ || s.len() == 0 {
        Ok(QueryView::Global)
    } else if s == "Costly"@ {
        Ok(QueryView::Costly)
    } else if s == "Foreign"@ {
        Ok(QueryView::Foreign)
    } else {
        match parse_items(ascii_words(s)) {
            Some(items) => Ok(QueryView::Items(items)),
            None => Err(()),
        }
    }
}

/// Whether two strings are equal.
pub fn str_equals(a: &str, b: &str) -> (r: bool)
    ensures
        r == (a@ == b@),
{
    let n = a.unicode_len();
    if n != b.unicode_len() {
        return false;
    }
    let mut i: usize = 0;
    while i < n
        invariant
            n == a@.len() == b@.len(),
            i <= n,
            forall|j: int| 0 <= j < i ==> a@[j] == b@[j],
        decreases n - i,
    {
        if a.get_char(i) != b.get_char(i) {
            return false;
        }
        i = i + 1;
    }
    assert(a@ =~= b@);
    true
}

/// The number of a word, as `u32::from_str` reads it.
fn parse_u32(w: &Vec<char>) -> (r: Option<u32>)
    ensures
        r == parse_u32_word(w@),
{
    let mut start: usize = 0;
    if w.len() > 0 && w[0] == '+' {
        start = 1;
    }
    let ghost body = if w@.len() > 0 && w@[0] == '+' { w@.drop_first() } else { w@ };
    if start == w.len() {
        return None;
    }
    let mut value: u64 = 0;
    let mut i: usize = start;
    while i < w.len()
        invariant
            start <= i <= w@.len(),
            start == w@.len() - body.len(),
            body == w@.skip(start as int),
            body == (if w@.len() > 0 && w@[0] == '+' { w@.drop_first() } else { w@ }),
            body.len() > 0,
            value == digits_value(body.take(i - start)),
            value <= u32::MAX,
            forall|j: int| 0 <= j < i - start ==> is_digit(#[trigger] body[j]),
        decreases w.len() - i,
    {
        let c = w[i];
        proof {
            assert(body[i - start] == c);
            assert(body.take(i - start + 1).drop_last() =~= body.take(i - start));
        }
        if !('0' <= c && c <= '9') {
            proof {
                assert(!is_digit(body[i - start]));
                assert(!all_digits(body));
                assert(parse_u32_word(w@) is None);
            }
            return None;
        }
        let d = (c as u32 - '0' as u32) as u64;
        value = value * 10 + d;
        if value > u32::MAX as u64 {
            proof {
                assert(body.take(i - start + 1).last() == c);
                assert(value == digits_value(body.take(i - start + 1)));
                lemma_digits_value_grows(body, (i - start + 1) as int);
                if all_digits(body) {
                    assert(digits_value(body) > u32::MAX);
                }
            }
            return None;
        }
        i = i + 1;
    }
    proof {
        assert(body.take(body.len() as int) =~= body);
        assert(all_digits(body));
    }
    Some(value as u32)
}

/// A longer run of digits is worth at least as much.
pub(crate) proof fn lemma_digits_value_grows(d: Seq<char>, k: int)
    requires
        0 <= k <= d.len(),
        forall|i: int| 0 <= i < k ==> is_digit(#[trigger] d[i]),
    ensures
        (forall|i: int| 0 <= i < d.len() ==> is_digit(#[trigger] d[i])) ==> digits_value(d) >= digits_value(d.take(k)),
    decreases d.len() - k,
{
    if k < d.len() {
        if all_digits(d) {
            lemma_digits_value_grows(d, k + 1);
            assert(d.take(k + 1).drop_last() =~= d.take(k));
            assert(digits_value(d.take(k + 1)) >= digits_value(d.take(k)) * 10) by {
                assert(is_digit(d[k]));
            }
            lemma_digits_nonneg(d.take(k));
        }
    } else {
        assert(d.take(k) =~= d);
    }
}

pub(crate) proof fn lemma_digits_nonneg(d: Seq<char>)
    requires
        forall|i: int| 0 <= i < d.len() ==> is_digit(#[trigger] d[i]),
    ensures
        digits_value(d) >= 0,
    decreases d.len(),
{
    if d.len() > 0 {
        assert forall|i: int| 0 <= i < d.len() - 1 implies is_digit(#[trigger] d.drop_last()[i]) by {
            assert(d.drop_last()[i] == d[i]);
        }
        lemma_digits_nonneg(d.drop_last());
        assert(is_digit(d[d.len() - 1]));
    }
}

/// The characters of each word.
pub open spec fn word_views(ws: Seq<Vec<char>>) -> Seq<Seq<char>> {
    ws.map_values(|w: Vec<char>| w@)
}

/// The words of `s` between runs of ASCII whitespace.
fn split_ascii_whitespace(s: &str) -> (r: Vec<Vec<char>>)
    ensures
        word_views(r@) == ascii_words(s@),
{
    let n = s.unicode_len();
    let mut out: Vec<Vec<char>> = Vec::new();
    let mut cur: Vec<char> = Vec::new();
    let mut i: usize = 0;
    proof {
        assert(s@.skip(0) =~= s@);
    }
    while i < n
        invariant
            n == s@.len(),
            i <= n,
            word_views(out@) + words_from(s@.skip(i as int), cur@) == ascii_words(s@),
        decreases n - i,
    {
        let c = s.get_char(i);
        let ghost rest = s@.skip(i as int);
        proof {
            assert(rest[0] == c);
            assert(rest.drop_first() =~= s@.skip(i + 1));
        }
        let ghost cur0 = cur@;
        if is_ascii_whitespace(c) {
            proof {
                assert(words_from(rest, cur0) == (if cur0.len() == 0 {
                    Seq::<Seq<char>>::empty()
                } else {
                    seq![cur0]
                }) + words_from(s@.skip(i + 1), seq![]));
            }
            if cur.len() > 0 {
                let ghost done = word_views(out@);
                let word = cur;
                out.push(word);
                cur = Vec::new();
                proof {
                    assert(word_views(out@) =~= done + seq![word@]);
                    assert(cur@ =~= Seq::<char>::empty());
                    assert(done + (seq![cur0] + words_from(s@.skip(i + 1), seq![])) =~= (done + seq![cur0]) + words_from(s@.skip(i + 1), seq![]));
                }
            } else {
                proof {
                    assert(cur@ =~= Seq::<char>::empty());
                    assert(Seq::<Seq<char>>::empty() + words_from(s@.skip(i + 1), seq![]) =~= words_from(s@.skip(i + 1), seq![]));
                }
            }
        } else {
            cur.push(c);
            proof {
                assert(words_from(rest, cur0) == words_from(s@.skip(i + 1), cur0.push(c)));
            }
        }
        i = i + 1;
    }
    proof {
        assert(s@.skip(n as int) =~= Seq::<char>::empty());
    }
    if cur.len() > 0 {
        let ghost done = word_views(out@);
        let word = cur;
        out.push(word);
        proof {
            assert(word_views(out@) =~= done + seq![word@]);
        }
    } else {
        proof {
            assert(word_views(out@) + Seq::<Seq<char>>::empty() =~= word_views(out@));
        }
    }
    out
}

/// The query a string stands for.
pub fn parse_query(s: &str) -> (r: Result<QueryType, ()>)
    ensures
        match r {
            Ok(q) => spec_parse_query(s@) == Ok::<QueryView, ()>(q@),
            Err(_) => spec_parse_query(s@) is Err,
        },
{
    if str_equals(s, "Global") || s.unicode_len() == 0 {
        return Ok(QueryType::Global);
    }
    if str_equals(s, "Costly") {
        return Ok(QueryType::Costly);
    }
    if str_equals(s, "Foreign") {
        return Ok(QueryType::Foreign);
    }
    let words = split_ascii_whitespace(s);
    let ghost ws = word_views(words@);
    let mut items: Vec<u32> = Vec::new();
    let mut i: usize = 0;
    while i < words.len()
        invariant
            i <= words@.len(),
            ws == word_views(words@),
            ws == ascii_words(s@),
            spec_parse_query(s@) == (match parse_items(ws) {
                Some(v) => Ok::<QueryView, ()>(QueryView::Items(v)),
                None => Err(()),
            }),
            parse_items(ws.take(i as int)) == Some(items@),
        decreases words.len() - i,
    {
        proof {
            assert(ws.take(i + 1).drop_last() =~= ws.take(i as int));
            assert(ws.take(i + 1).last() == words@[i as int]@);
        }
        match parse_u32(&words[i]) {
            Some(v) => items.push(v),
            None => {
                proof {
                    lemma_parse_items_prefix(ws, i + 1);
                    assert(parse_items(ws.take(i + 1)) is None);
                    assert(parse_items(ascii_words(s@)) is None);
                }
                return Err(());
            },
        }
        i = i + 1;
    }
    proof {
        assert(ws.take(ws.len() as int) =~= ws);
    }
    Ok(QueryType::Items(items))
}

/// A list of words is numbers only if each of its prefixes is.
proof fn lemma_parse_items_prefix(ws: Seq<Seq<char>>, k: int)
    requires
        0 <= k <= ws.len(),
    ensures
        parse_items(ws) is Some ==> parse_items(ws.take(k)) is Some,
    decreases ws.len(),
{
    if k < ws.len() {
        lemma_parse_items_prefix(ws.drop_last(), k);
        assert(ws.drop_last().take(k) =~= ws.take(k));
    } else {
        assert(ws.take(k) =~= ws);
    }
}

impl std::str::FromStr for QueryType {
    type Err = ();

    fn from_str(s: &str) -> Result<Self, ()> {
        parse_query(s)
    }
}

/// What a provider's statistics report of a collection.
pub struct Collected {
    pub total_bytes: usize,
    pub num_object_types: usize,
}


/// Whether the objects of these name indexes include the object of name offset
/// `name_offset` for a provider whose first counter is `base`.
pub open spec fn items_include(items: Seq<u32>, base: u32, name_offset: u32) -> bool {
    base + name_offset <= u32::MAX && items.contains((base + name_offset) as u32)
}

/// Whether the sizes of an object fit in the 32-bit fields of its header.
pub fn object_fits_exec(
    t: &PerfObjectTypeTemplate,
    first_counter: u32,
    counters: &[PERF_COUNTER_DEFINITION],
    instances: Option<&[PERF_INSTANCE_DEFINITION]>,
    block: &PERF_COUNTER_BLOCK,
) -> (r: bool)
    ensures
        r == object_fits(
            *t,
            first_counter,
            counters@,
            match instances {
                Some(is) => Some(is@),
                None => None,
            },
            *block,
        ),
{
    if first_counter as u64 + t.name_offset as u64 > u32::MAX as u64 {
        return false;
    }
    if first_counter as u64 + t.help_offset as u64 > u32::MAX as u64 {
        return false;
    }
    if counters.len() > u32::MAX as usize {
        return false;
    }
    let counters_length = sum_counters_length(counters);
    let (instances_length, blocks_length): (u64, u64) = match instances {
        Some(it) => {
            if it.len() > i32::MAX as usize {
                return false;
            }
            proof {
                assert(it@.len() * block.ByteLength <= 0xFFFF_FFFFu64 * 0xFFFF_FFFFu64) by (nonlinear_arith)
                    requires it@.len() <= u32::MAX;
            }
            (sum_instances_length(it), (it.len() as u64) * (block.ByteLength as u64))
        },
        None => (0, block.ByteLength as u64),
    };
    PERF_OBJECT_TYPE_SIZE as u128 + counters_length as u128 + instances_length as u128 + blocks_length as u128 + 7 <= u32::MAX as u128
}

/// Whether `items` lists the name index `base + name_offset`; an index beyond 32 bits is
/// never listed.
pub fn respond_to_items(items: &[u32], base: u32, name_offset: u32) -> (r: bool)
    ensures
        r == items_include(items@, base, name_offset),
{
    let name_index = match base.checked_add(name_offset) {
        Some(i) => i,
        None => return false,
    };
    assert(name_index == base + name_offset);
    assert(((base + name_offset) as u32) == name_index);
    let mut i: usize = 0;
    while i < items.len()
        invariant
            i <= items@.len(),
            name_index == base + name_offset,
            forall|j: int| 0 <= j < i ==> items@[j] != name_index,
        decreases items.len() - i,
    {
        if items[i] == name_index {
            assert(items@[i as int] == name_index);
            assert(items@.contains(name_index));
            assert(base + name_offset <= u32::MAX);
            assert(items_include(items@, base, name_offset));
            return true;
        }
        i = i + 1;
    }
    false
}

/// The error for a buffer too small for the data.
pub fn error_small_buffer() -> (r: WinError)
    ensures
        r@.code() == ERROR_MORE_DATA,
{
    WinError::new(ERROR_MORE_DATA)
}

/// The error for a failure while laying out or writing the data.
pub fn error_internal() -> (r: WinError)
    ensures
        r@.code() == ERROR_ACCESS_DENIED,
{
    WinError::new(ERROR_ACCESS_DENIED)
}

/// Copy `bytes` into `buffer` from `pos`, if they fit.
pub fn copy_into(buffer: &mut [u8], pos: usize, bytes: &[u8]) -> (r: bool)
    ensures
        final(buffer)@.len() == old(buffer)@.len(),
        r == (pos + bytes@.len() <= old(buffer)@.len()),
        r ==> final(buffer)@ == overwrite(old(buffer)@, pos as int, bytes@),
        !r ==> final(buffer)@ == old(buffer)@,
{
    if pos > buffer.len() || bytes.len() > buffer.len() - pos {
        return false;
    }
    let end = pos + bytes.len();
    let mut i: usize = 0;
    while i < bytes.len()
        invariant
            end == pos + bytes@.len(),
            pos + bytes@.len() <= old(buffer)@.len(),
            buffer@.len() == old(buffer)@.len(),
            i <= bytes@.len(),
            forall|j: int| 0 <= j < pos ==> buffer@[j] == old(buffer)@[j],
            forall|j: int| pos + bytes@.len() <= j < buffer@.len() ==> buffer@[j] == old(buffer)@[j],
            forall|j: int| 0 <= j < i ==> buffer@[pos + j] == bytes@[j],
            forall|j: int| pos + i <= j < pos + bytes@.len() ==> buffer@[j] == old(buffer)@[j],
        decreases bytes.len() - i,
    {
        buffer[pos + i] = bytes[i];
        i = i + 1;
    }
    assert(buffer@ =~= overwrite(old(buffer)@, pos as int, bytes@));
    true
}

/// Bytes written after those of earlier objects extend them, and leave the rest of the
/// buffer as it was.
proof fn lemma_object_placed(
    start: Seq<u8>,
    before: Seq<u8>,
    after: Seq<u8>,
    prev: Seq<Seq<u8>>,
    total: int,
    length: int,
)
    requires
        0 <= total,
        0 <= length,
        total + length <= before.len(),
        before.len() == start.len(),
        after.len() == before.len(),
        concat_bytes(prev).len() == total,
        before.take(total) == concat_bytes(prev),
        before.skip(total) == start.skip(total),
        after.take(total) == before.take(total),
        after.skip(total + length) == before.skip(total + length),
    ensures
        concat_bytes(prev.push(after.subrange(total, total + length))) == concat_bytes(prev) + after.subrange(
            total,
            total + length,
        ),
        after.take(total + length) == concat_bytes(prev.push(after.subrange(total, total + length))),
        after.skip(total + length) == start.skip(total + length),
{
    let img = after.subrange(total, total + length);
    let imgs = prev.push(img);
    assert(imgs.drop_last() =~= prev);
    assert(after.take(total + length) =~= concat_bytes(prev) + img) by {
        assert forall|k: int| 0 <= k < total + length implies after.take(total + length)[k]
            == (concat_bytes(prev) + img)[k] by {
            if k < total {
                assert(after.take(total)[k] == before.take(total)[k]);
            }
        }
    }
    assert(after.skip(total + length) =~= start.skip(total + length)) by {
        assert forall|k: int| 0 <= k < after.len() - (total + length) implies #[trigger] after.skip(total + length)[k]
            == start.skip(total + length)[k] by {
            assert(before.skip(total + length)[k] == before[total + length + k]);
            assert(before.skip(total)[length + k] == start.skip(total)[length + k]);
        }
    }
}

/// The view of an instance template: its parent, its unique ID and its name.
pub struct InstanceTemplateView {
    pub parent_index: u32,
    pub parent_instance: u32,
    pub unique_id: i32,
    pub name: Seq<u16>,
}

impl View for PerfInstanceDefinitionTemplate {
    type V = InstanceTemplateView;

    open spec fn view(&self) -> InstanceTemplateView {
        InstanceTemplateView {
            parent_index: self.ParentObjectTitleIndex,
            parent_instance: self.ParentObjectInstance,
            unique_id: self.UniqueID,
            name: self.Name@,
        }
    }
}

/// The view of an optional instance template.
pub open spec fn instance_view(i: Option<&PerfInstanceDefinitionTemplate>) -> Option<InstanceTemplateView> {
    match i {
        Some(t) => Some(t@),
        None => None,
    }
}

/// The views of an optional list of instance templates.
pub open spec fn instances_views(is: Option<Seq<PerfInstanceDefinitionTemplate>>) -> Option<Seq<InstanceTemplateView>> {
    match is {
        Some(v) => Some(v.map_values(|t: PerfInstanceDefinitionTemplate| t@)),
        None => None,
    }
}

/// A result whose error is taken by its view.
pub open spec fn err_view<T>(r: Result<T, WinError>) -> Result<T, WinErrorView> {
    match r {
        Ok(v) => Ok(v),
        Err(e) => Err(e@),
    }
}

/// Whether the answer `r` to whether the object `o` is part of the answer to the query
/// `q` may be given by a provider whose first counters may be `may_fc`: every object for a
/// global query, none for a costly or foreign query, and for a list of name indexes the
/// objects whose name index, from a first counter the provider may give, is listed, or an
/// error the provider may give for the first counter.
pub open spec fn may_select(
    may_fc: spec_fn(PerfObjectTypeTemplate, Result<u32, WinErrorView>) -> bool,
    q: QueryView,
    o: PerfObjectTypeTemplate,
    r: Result<bool, WinErrorView>,
) -> bool {
    match q {
        QueryView::Global => r == Ok::<bool, WinErrorView>(true),
        QueryView::Costly => r == Ok::<bool, WinErrorView>(false),
        QueryView::Foreign => r == Ok::<bool, WinErrorView>(false),
        QueryView::Items(items) => match r {
            Ok(b) => exists|f: u32| #[trigger] may_fc(o, Ok(f)) && b == items_include(items, f, o.name_offset),
            Err(e) => may_fc(o, Err(e)),
        },
    }
}

/// The counter values that a provider gives for the counter blocks of an object: one row
/// per instance, or a single row for an object without instances, with one value per
/// counter, asked for that counter, that instance and the time `now`.
#[verifier::opaque]
pub open spec fn answer_rows(
    data: spec_fn(PerfObjectTypeTemplate, PerfCounterDefinitionTemplate, Option<InstanceTemplateView>, PerfClock) -> CounterValueView,
    t: PerfObjectTypeTemplate,
    cs: Seq<PerfCounterDefinitionTemplate>,
    is: Option<Seq<InstanceTemplateView>>,
    now: PerfClock,
) -> Seq<Seq<CounterValueView>> {
    match is {
        Some(v) => Seq::new(v.len(), |j: int| Seq::new(cs.len(), |i: int| data(t, cs[i], Some(v[j]), now))),
        None => seq![Seq::new(cs.len(), |i: int| data(t, cs[i], None, now))],
    }
}

/// Rows of counter values whose views are `views`.
pub open spec fn rows_viewed(rows: Seq<Seq<CounterValue>>, views: Seq<Seq<CounterValueView>>) -> bool {
    &&& rows.len() == views.len()
    &&& forall|j: int| 0 <= j < rows.len() ==> (#[trigger] rows[j]).len() == views[j].len()
    &&& forall|j: int, i: int| 0 <= j < rows.len() && 0 <= i < rows[j].len() ==> (#[trigger] rows[j][i])@ == views[j][i]
}

/// What writing one object may give, from the answers of a provider whose first counters
/// may be `may_fc`, with the counters `cs`, the instances `is` and the rows of values
/// `rows`, at time `now`, with `room` bytes left: the bytes that `object_built` builds from
/// a first counter the provider may give; or an error that the provider may give for the
/// first counter, or the error of `object_built`.
#[verifier::opaque]
pub open spec fn object_outcome(
    may_fc: spec_fn(PerfObjectTypeTemplate, Result<u32, WinErrorView>) -> bool,
    t: PerfObjectTypeTemplate,
    cs: Seq<PerfCounterDefinitionTemplate>,
    is: Option<Seq<InstanceTemplateView>>,
    rows: Seq<Seq<CounterValueView>>,
    now: PerfClock,
    room: int,
    out: Result<Seq<u8>, WinErrorView>,
) -> bool {
    match out {
        Ok(img) => exists|f: u32, insts: Option<Seq<PerfInstanceDefinitionTemplate>>, vals: Seq<Seq<CounterValue>>|
            may_fc(t, Ok(f)) && instances_views(insts) == is && rows_viewed(vals, rows) && #[trigger] object_built(
                t,
                f,
                cs,
                insts,
                vals,
                now,
                room,
            ) == Ok::<Seq<u8>, u32>(img),
        Err(e) => may_fc(t, Err(e)) || exists|
            f: u32,
            insts: Option<Seq<PerfInstanceDefinitionTemplate>>,
            vals: Seq<Seq<CounterValue>>,
        |
            may_fc(t, Ok(f)) && instances_views(insts) == is && rows_viewed(vals, rows) && #[trigger] object_built(
                t,
                f,
                cs,
                insts,
                vals,
                now,
                room,
            ) == Err::<Seq<u8>, u32>(e.code()),
    }
}

/// The outcome `out` is what `object_built` gives with the first counter `f`, the instances
/// `insts` whose views are `is` and the values `vals` whose views are `rows`.
pub open spec fn built_as(
    t: PerfObjectTypeTemplate,
    f: u32,
    cs: Seq<PerfCounterDefinitionTemplate>,
    is: Option<Seq<InstanceTemplateView>>,
    rows: Seq<Seq<CounterValueView>>,
    insts: Option<Seq<PerfInstanceDefinitionTemplate>>,
    vals: Seq<Seq<CounterValue>>,
    now: PerfClock,
    room: int,
    out: Result<Seq<u8>, WinErrorView>,
) -> bool {
    &&& instances_views(insts) == is
    &&& rows_viewed(vals, rows)
    &&& match out {
        Ok(img) => object_built(t, f, cs, insts, vals, now, room) == Ok::<Seq<u8>, u32>(img),
        Err(e) => object_built(t, f, cs, insts, vals, now, room) == Err::<Seq<u8>, u32>(e.code()),
    }
}

/// An error that the provider may give for the first counter is an outcome of writing the
/// object.
proof fn lemma_outcome_first_counter_error(
    may_fc: spec_fn(PerfObjectTypeTemplate, Result<u32, WinErrorView>) -> bool,
    t: PerfObjectTypeTemplate,
    cs: Seq<PerfCounterDefinitionTemplate>,
    is: Option<Seq<InstanceTemplateView>>,
    rows: Seq<Seq<CounterValueView>>,
    now: PerfClock,
    room: int,
    e: WinErrorView,
)
    requires
        may_fc(t, Err(e)),
    ensures
        object_outcome(may_fc, t, cs, is, rows, now, room, Err(e)),
{
    reveal(object_outcome);
}

/// What `object_built` gives from a first counter the provider may give, its instances and
/// its rows of values is an outcome of writing the object.
proof fn lemma_outcome_built(
    may_fc: spec_fn(PerfObjectTypeTemplate, Result<u32, WinErrorView>) -> bool,
    t: PerfObjectTypeTemplate,
    cs: Seq<PerfCounterDefinitionTemplate>,
    is: Option<Seq<InstanceTemplateView>>,
    rows: Seq<Seq<CounterValueView>>,
    now: PerfClock,
    room: int,
    f: u32,
    insts: Option<Seq<PerfInstanceDefinitionTemplate>>,
    vals: Seq<Seq<CounterValue>>,
    out: Result<Seq<u8>, WinErrorView>,
)
    requires
        may_fc(t, Ok(f)),
        built_as(t, f, cs, is, rows, insts, vals, now, room, out),
    ensures
        object_outcome(may_fc, t, cs, is, rows, now, room, out),
{
    reveal(object_outcome);
    match out {
        Ok(img) => {
            assert(object_built(t, f, cs, insts, vals, now, room) == Ok::<Seq<u8>, u32>(img));
        },
        Err(e) => {
            assert(object_built(t, f, cs, insts, vals, now, room) == Err::<Seq<u8>, u32>(e.code()));
        },
    }
}

/// Rows of values asked for each counter and each instance are the rows of the answers.
proof fn lemma_rows_answered(
    data: spec_fn(PerfObjectTypeTemplate, PerfCounterDefinitionTemplate, Option<InstanceTemplateView>, PerfClock) -> CounterValueView,
    t: PerfObjectTypeTemplate,
    cs: Seq<PerfCounterDefinitionTemplate>,
    is: Option<Seq<InstanceTemplateView>>,
    vals: Seq<Seq<CounterValue>>,
    now: PerfClock,
)
    requires
        vals.len() == (match is {
            Some(v) => v.len(),
            None => 1,
        }),
        forall|j: int| 0 <= j < vals.len() ==> (#[trigger] vals[j]).len() == cs.len(),
        forall|j: int, i: int|
            0 <= j < vals.len() && 0 <= i < cs.len() ==> (#[trigger] vals[j][i])@ == data(
                t,
                cs[i],
                match is {
                    Some(v) => Some(v[j]),
                    None => None,
                },
                now,
            ),
    ensures
        rows_viewed(vals, answer_rows(data, t, cs, is, now)),
{
    reveal(answer_rows);
}

/// Instances with the same views have the same definitions and can be written alike.
proof fn lemma_instances_alike(
    i1: Option<Seq<PerfInstanceDefinitionTemplate>>,
    i2: Option<Seq<PerfInstanceDefinitionTemplate>>,
)
    requires
        instances_views(i1) == instances_views(i2),
    ensures
        i1 is Some <==> i2 is Some,
        i1 is Some ==> instance_layouts(i1->0) == instance_layouts(i2->0),
        i1 is Some ==> i1->0.len() == i2->0.len(),
        instances_writable(i1) == instances_writable(i2),
{
    if let Some(a) = i1 {
        let b = i2->0;
        let va = a.map_values(|t: PerfInstanceDefinitionTemplate| t@);
        let vb = b.map_values(|t: PerfInstanceDefinitionTemplate| t@);
        assert(va.len() == vb.len());
        assert forall|j: int| 0 <= j < a.len() implies #[trigger] a[j]@ == b[j]@ by {
            assert(va[j] == vb[j]);
        }
        assert(instance_layouts(a) =~= instance_layouts(b)) by {
            assert forall|j: int| 0 <= j < a.len() implies instance_layouts(a)[j] == instance_layouts(b)[j] by {
                assert(a[j]@ == b[j]@);
                assert(a[j].Name@ == b[j].Name@);
            }
        }
        if names_writable(a) {
            assert forall|j: int| 0 <= j < b.len() implies (#[trigger] b[j]).Name@.len() < 0x1000_0000 && has_no_nul(
                b[j].Name@,
            ) by {
                assert(a[j]@ == b[j]@);
                assert(a[j].Name@.len() < 0x1000_0000 && has_no_nul(a[j].Name@));
            }
        }
        if names_writable(b) {
            assert forall|j: int| 0 <= j < a.len() implies (#[trigger] a[j]).Name@.len() < 0x1000_0000 && has_no_nul(
                a[j].Name@,
            ) by {
                assert(a[j]@ == b[j]@);
                assert(b[j].Name@.len() < 0x1000_0000 && has_no_nul(b[j].Name@));
            }
        }
    }
}

/// Values whose views are the same.
pub open spec fn values_alike(v1: Seq<CounterValue>, v2: Seq<CounterValue>) -> bool {
    &&& v1.len() == v2.len()
    &&& forall|i: int| 0 <= i < v1.len() ==> (#[trigger] v1[i])@ == v2[i]@
}

/// Values with the same views make the same counter block and fit it alike.
proof fn lemma_block_alike(len: u32, defs: Seq<PERF_COUNTER_DEFINITION>, v1: Seq<CounterValue>, v2: Seq<CounterValue>)
    requires
        values_alike(v1, v2),
    ensures
        block_image(len, defs, v1) == block_image(len, defs, v2),
        block_fits(len, defs, v1) == block_fits(len, defs, v2),
    decreases defs.len(),
{
    if defs.len() > 0 {
        if v1.len() == 0 {
            assert(v1 =~= v2);
        } else {
            assert(v1.last()@ == v2.last()@);
            assert forall|i: int| 0 <= i < v1.drop_last().len() implies (#[trigger] v1.drop_last()[i])@
                == v2.drop_last()[i]@ by {
                assert(v1.drop_last()[i] == v1[i]);
                assert(v2.drop_last()[i] == v2[i]);
            }
        }
        lemma_block_alike(len, defs.drop_last(), v1.drop_last(), v2.drop_last());
    }
}

/// Instances with the same views and rows of values with the same views build the same
/// object.
proof fn lemma_built_alike(
    t: PerfObjectTypeTemplate,
    f: u32,
    cs: Seq<PerfCounterDefinitionTemplate>,
    i1: Option<Seq<PerfInstanceDefinitionTemplate>>,
    i2: Option<Seq<PerfInstanceDefinitionTemplate>>,
    v1: Seq<Seq<CounterValue>>,
    v2: Seq<Seq<CounterValue>>,
    now: PerfClock,
    room: int,
)
    requires
        instances_views(i1) == instances_views(i2),
        v1.len() == v2.len(),
        v1.len() == blocks_count(i1),
        forall|j: int| 0 <= j < v1.len() ==> values_alike(#[trigger] v1[j], v2[j]),
    ensures
        object_built(t, f, cs, i1, v1, now, room) == object_built(t, f, cs, i2, v2, now, room),
{
    reveal(object_built);
    lemma_instances_alike(i1, i2);
    let len = counters_block(f, cs).0 as u32;
    let defs = counters_block(f, cs).1;
    assert forall|j: int| 0 <= j < v1.len() implies block_image(len, defs, #[trigger] v1[j]) == block_image(
        len,
        defs,
        v2[j],
    ) && block_fits(len, defs, v1[j]) == block_fits(len, defs, v2[j]) by {
        lemma_block_alike(len, defs, v1[j], v2[j]);
    }
    if v1.len() == 0 {
        assert(v1 =~= v2);
    }
    if rows_fit(len, defs, v1) {
        assert forall|j: int| 0 <= j < v2.len() implies block_fits(len, defs, #[trigger] v2[j]) by {
            assert(block_fits(len, defs, v1[j]));
        }
    }
    if rows_fit(len, defs, v2) {
        assert forall|j: int| 0 <= j < v1.len() implies block_fits(len, defs, #[trigger] v1[j]) by {
            assert(block_fits(len, defs, v2[j]));
        }
    }
    match i1 {
        Some(a) => {
            let b = i2->0;
            let va = a.map_values(|x: PerfInstanceDefinitionTemplate| x@);
            let vb = b.map_values(|x: PerfInstanceDefinitionTemplate| x@);
            assert forall|j: int| 0 <= j < a.len() implies #[trigger] a[j]@ == b[j]@ by {
                assert(va[j] == vb[j]);
            }
            assert(instance_items(len, defs, a, v1) =~= instance_items(len, defs, b, v2)) by {
                assert forall|j: int| 0 <= j < a.len() implies instance_items(len, defs, a, v1)[j] == instance_items(
                    len,
                    defs,
                    b,
                    v2,
                )[j] by {
                    assert(a[j]@ == b[j]@);
                    assert(block_image(len, defs, v1[j]) == block_image(len, defs, v2[j]));
                }
            }
        },
        None => {},
    }
    assert(object_parts(len, defs, i1, v1) == object_parts(len, defs, i2, v2));
}

/// Law: for a provider whose only answer for the first counter of the object `t` is `f`,
/// writing the object gives exactly what `object_built` gives from `f` and the provider's
/// answers: its bytes, or its error. So an object too long for the room left gives
/// `ERROR_MORE_DATA`, and every counter block holds the values asked for its instance.
pub proof fn lemma_outcome_determined(
    may_fc: spec_fn(PerfObjectTypeTemplate, Result<u32, WinErrorView>) -> bool,
    t: PerfObjectTypeTemplate,
    cs: Seq<PerfCounterDefinitionTemplate>,
    is: Option<Seq<InstanceTemplateView>>,
    rows: Seq<Seq<CounterValueView>>,
    now: PerfClock,
    room: int,
    f: u32,
    insts: Option<Seq<PerfInstanceDefinitionTemplate>>,
    vals: Seq<Seq<CounterValue>>,
    out: Result<Seq<u8>, WinErrorView>,
)
    requires
        forall|r: Result<u32, WinErrorView>| #[trigger] may_fc(t, r) <==> r == Ok::<u32, WinErrorView>(f),
        instances_views(insts) == is,
        rows.len() == (match is {
            Some(v) => v.len(),
            None => 1,
        }),
        rows_viewed(vals, rows),
        object_outcome(may_fc, t, cs, is, rows, now, room, out),
    ensures
        match object_built(t, f, cs, insts, vals, now, room) {
            Ok(img) => out == Ok::<Seq<u8>, WinErrorView>(img),
            Err(c) => out matches Err(e) && e.code() == c,
        },
{
    reveal(object_outcome);
    assert forall|i2: Option<Seq<PerfInstanceDefinitionTemplate>>, v2: Seq<Seq<CounterValue>>|
        instances_views(i2) == is && rows_viewed(v2, rows) implies #[trigger] object_built(t, f, cs, i2, v2, now, room)
        == object_built(t, f, cs, insts, vals, now, room) by {
        assert forall|j: int| 0 <= j < v2.len() implies values_alike(#[trigger] v2[j], vals[j]) by {
            assert forall|i: int| 0 <= i < v2[j].len() implies (#[trigger] v2[j][i])@ == vals[j][i]@ by {
                assert(v2[j][i]@ == rows[j][i]);
                assert(vals[j][i]@ == rows[j][i]);
            }
        }
        lemma_instances_alike(i2, insts);
        lemma_built_alike(t, f, cs, i2, insts, v2, vals, now, room);
    }
    match out {
        Ok(img) => {
            let (f2, i2, v2) = choose|f2: u32, i2: Option<Seq<PerfInstanceDefinitionTemplate>>, v2: Seq<Seq<CounterValue>>|
                may_fc(t, Ok(f2)) && instances_views(i2) == is && rows_viewed(v2, rows) && #[trigger] object_built(
                    t,
                    f2,
                    cs,
                    i2,
                    v2,
                    now,
                    room,
                ) == Ok::<Seq<u8>, u32>(img);
            assert(Ok::<u32, WinErrorView>(f2) == Ok::<u32, WinErrorView>(f));
            assert(object_built(t, f, cs, i2, v2, now, room) == object_built(t, f, cs, insts, vals, now, room));
        },
        Err(e) => {
            assert(!may_fc(t, Err(e)));
            let (f2, i2, v2) = choose|f2: u32, i2: Option<Seq<PerfInstanceDefinitionTemplate>>, v2: Seq<Seq<CounterValue>>|
                may_fc(t, Ok(f2)) && instances_views(i2) == is && rows_viewed(v2, rows) && #[trigger] object_built(
                    t,
                    f2,
                    cs,
                    i2,
                    v2,
                    now,
                    room,
                ) == Err::<Seq<u8>, u32>(e.code());
            assert(Ok::<u32, WinErrorView>(f2) == Ok::<u32, WinErrorView>(f));
            assert(object_built(t, f, cs, i2, v2, now, room) == object_built(t, f, cs, insts, vals, now, room));
        },
    }
}

/// The answers of a provider: the first counters it may give for an object, and the
/// time, the counters, the instances and the values it gives.
#[verifier::ext_equal]
pub struct ProviderAnswers {
    pub first_counter: spec_fn(PerfObjectTypeTemplate, Result<u32, WinErrorView>) -> bool,
    pub time: spec_fn(PerfObjectTypeTemplate) -> PerfClock,
    pub counters: spec_fn(PerfObjectTypeTemplate) -> Seq<PerfCounterDefinitionTemplate>,
    pub instances: spec_fn(PerfObjectTypeTemplate) -> Option<Seq<InstanceTemplateView>>,
    pub data: spec_fn(PerfObjectTypeTemplate, PerfCounterDefinitionTemplate, Option<InstanceTemplateView>, PerfClock) -> CounterValueView,
}

/// What writing the object `o` at its time may give by the answers `a`, with `room` bytes
/// left.
pub open spec fn object_outcome_of(
    a: ProviderAnswers,
    o: PerfObjectTypeTemplate,
    room: int,
    out: Result<Seq<u8>, WinErrorView>,
) -> bool {
    let now = (a.time)(o);
    object_outcome(
        a.first_counter,
        o,
        (a.counters)(o),
        (a.instances)(o),
        answer_rows(a.data, o, (a.counters)(o), (a.instances)(o), now),
        now,
        room,
        out,
    )
}

/// The objects `imgs` written before the outcome `out` of the objects that follow them.
pub open spec fn prepend_images(
    imgs: Seq<Seq<u8>>,
    out: Result<Seq<Seq<u8>>, WinErrorView>,
) -> Result<Seq<Seq<u8>>, WinErrorView> {
    match out {
        Ok(rest) => Ok(imgs + rest),
        Err(e) => Err(e),
    }
}

/// What collecting the objects `objs`, in order, for the query `q` may give by the answers
/// `a`, with `room` bytes left: the bytes of each object that the query selects, each an
/// outcome of writing that object in the room that the objects before it left; or the
/// first error, of the selection or of the writing of a selected object.
pub open spec fn collect_outcome(
    a: ProviderAnswers,
    q: QueryView,
    objs: Seq<PerfObjectTypeTemplate>,
    room: int,
    out: Result<Seq<Seq<u8>>, WinErrorView>,
) -> bool
    decreases objs.len(),
{
    if objs.len() == 0 {
        out == Ok::<Seq<Seq<u8>>, WinErrorView>(Seq::empty())
    } else {
        let o = objs[0];
        let rest = objs.skip(1);
        let refused = match out {
            Ok(_) => false,
            Err(e) => may_select(a.first_counter, q, o, Err(e)),
        };
        let passed = may_select(a.first_counter, q, o, Ok::<bool, WinErrorView>(false)) && collect_outcome(
            a,
            q,
            rest,
            room,
            out,
        );
        let written = may_select(a.first_counter, q, o, Ok::<bool, WinErrorView>(true)) && match out {
            Ok(imgs) => imgs.len() > 0 && object_outcome_of(a, o, room, Ok(imgs[0])) && collect_outcome(
                a,
                q,
                rest,
                room - imgs[0].len(),
                Ok(imgs.skip(1)),
            ),
            Err(e) => object_outcome_of(a, o, room, Err(e)) || exists|img: Seq<u8>|
                #[trigger] object_outcome_of(a, o, room, Ok(img)) && collect_outcome(a, q, rest, room - img.len(), Err(e)),
        };
        refused || passed || written
    }
}

/// Law: when the query surely selects the first object and every outcome of writing it in
/// the room left is `ERROR_MORE_DATA` (as `lemma_outcome_determined` gives for an object
/// too long for the room), collecting gives `ERROR_MORE_DATA`.
pub proof fn lemma_collect_no_room(
    a: ProviderAnswers,
    q: QueryView,
    objs: Seq<PerfObjectTypeTemplate>,
    room: int,
    out: Result<Seq<Seq<u8>>, WinErrorView>,
)
    requires
        objs.len() > 0,
        forall|x: Result<bool, WinErrorView>| #[trigger] may_select(a.first_counter, q, objs[0], x) <==> x == Ok::<bool, WinErrorView>(true),
        forall|o: Result<Seq<u8>, WinErrorView>|
            #[trigger] object_outcome_of(a, objs[0], room, o) ==> (o matches Err(e) && e.code() == ERROR_MORE_DATA),
        collect_outcome(a, q, objs, room, out),
    ensures
        out matches Err(e) && e.code() == ERROR_MORE_DATA,
{
    assert(!may_select(a.first_counter, q, objs[0], Ok::<bool, WinErrorView>(false)));
    match out {
        Ok(imgs) => {
            if imgs.len() > 0 {
                assert(!object_outcome_of(a, objs[0], room, Ok::<Seq<u8>, WinErrorView>(imgs[0])));
            }
        },
        Err(e) => {
            assert(!may_select(a.first_counter, q, objs[0], Err::<bool, WinErrorView>(e)));
            if !object_outcome_of(a, objs[0], room, Err::<Seq<u8>, WinErrorView>(e)) {
                assert forall|img: Seq<u8>| !#[trigger] object_outcome_of(a, objs[0], room, Ok::<Seq<u8>, WinErrorView>(img)) by {
                    if object_outcome_of(a, objs[0], room, Ok::<Seq<u8>, WinErrorView>(img)) {
                        assert(false);
                    }
                }
            }
        },
    }
}

/// Collecting no objects gives no bytes.
proof fn lemma_collect_none(a: ProviderAnswers, q: QueryView, objs: Seq<PerfObjectTypeTemplate>, room: int)
    ensures
        collect_outcome(a, q, objs.skip(objs.len() as int), room, Ok(Seq::empty())),
{
    assert(objs.skip(objs.len() as int).len() == 0);
}

/// An object the query leaves out adds nothing to what collecting the objects after it
/// gives.
proof fn lemma_collect_passed(a: ProviderAnswers, q: QueryView, objs: Seq<PerfObjectTypeTemplate>, i: int, room: int)
    requires
        0 <= i < objs.len(),
        may_select(a.first_counter, q, objs[i], Ok(false)),
    ensures
        forall|out: Result<Seq<Seq<u8>>, WinErrorView>|
            #[trigger] collect_outcome(a, q, objs.skip(i + 1), room, out) ==> collect_outcome(a, q, objs.skip(i), room, out),
{
    assert(objs.skip(i)[0] == objs[i]);
    assert(objs.skip(i).skip(1) =~= objs.skip(i + 1));
}

/// An error in the selection of an object is an outcome of collecting it and the objects
/// after it.
proof fn lemma_collect_refused(
    a: ProviderAnswers,
    q: QueryView,
    objs: Seq<PerfObjectTypeTemplate>,
    i: int,
    room: int,
    e: WinErrorView,
)
    requires
        0 <= i < objs.len(),
        may_select(a.first_counter, q, objs[i], Err(e)),
    ensures
        collect_outcome(a, q, objs.skip(i), room, Err(e)),
{
    assert(objs.skip(i)[0] == objs[i]);
}

/// An error in writing a selected object is an outcome of collecting it and the objects
/// after it.
proof fn lemma_collect_failed(
    a: ProviderAnswers,
    q: QueryView,
    objs: Seq<PerfObjectTypeTemplate>,
    i: int,
    room: int,
    e: WinErrorView,
)
    requires
        0 <= i < objs.len(),
        may_select(a.first_counter, q, objs[i], Ok(true)),
        object_outcome_of(a, objs[i], room, Err(e)),
    ensures
        collect_outcome(a, q, objs.skip(i), room, Err(e)),
{
    assert(objs.skip(i)[0] == objs[i]);
}

/// A selected object written as `img` comes before what collecting the objects after it
/// gives in the room it leaves.
proof fn lemma_collect_written(
    a: ProviderAnswers,
    q: QueryView,
    objs: Seq<PerfObjectTypeTemplate>,
    i: int,
    room: int,
    img: Seq<u8>,
)
    requires
        0 <= i < objs.len(),
        may_select(a.first_counter, q, objs[i], Ok(true)),
        object_outcome_of(a, objs[i], room, Ok(img)),
    ensures
        forall|out: Result<Seq<Seq<u8>>, WinErrorView>|
            #[trigger] collect_outcome(a, q, objs.skip(i + 1), room - img.len(), out) ==> collect_outcome(
                a,
                q,
                objs.skip(i),
                room,
                prepend_images(seq![img], out),
            ),
{
    let s = objs.skip(i);
    assert(s[0] == objs[i]);
    assert(s.skip(1) =~= objs.skip(i + 1));
    assert forall|out: Result<Seq<Seq<u8>>, WinErrorView>|
        #[trigger] collect_outcome(a, q, objs.skip(i + 1), room - img.len(), out) implies collect_outcome(
            a,
            q,
            s,
            room,
            prepend_images(seq![img], out),
        ) by {
        match out {
            Ok(imgs) => {
                let all = seq![img] + imgs;
                assert(all[0] == img);
                assert(all.skip(1) =~= imgs);
            },
            Err(e) => {},
        }
    }
}

/// What collecting the objects from the `i`th on gives, after the objects `imgs`, is what
/// collecting all of them gives; and so it stays with one more object passed or written.
proof fn lemma_collect_prefix(
    a: ProviderAnswers,
    q: QueryView,
    objs: Seq<PerfObjectTypeTemplate>,
    i: int,
    j: int,
    len: int,
    room: int,
    room2: int,
    imgs: Seq<Seq<u8>>,
    more: Seq<Seq<u8>>,
)
    requires
        forall|out: Result<Seq<Seq<u8>>, WinErrorView>|
            #[trigger] collect_outcome(a, q, objs.skip(i), room, out) ==> collect_outcome(a, q, objs, len, prepend_images(imgs, out)),
        forall|out: Result<Seq<Seq<u8>>, WinErrorView>|
            #[trigger] collect_outcome(a, q, objs.skip(j), room2, out) ==> collect_outcome(
                a,
                q,
                objs.skip(i),
                room,
                prepend_images(more, out),
            ),
    ensures
        forall|out: Result<Seq<Seq<u8>>, WinErrorView>|
            #[trigger] collect_outcome(a, q, objs.skip(j), room2, out) ==> collect_outcome(
                a,
                q,
                objs,
                len,
                prepend_images(imgs + more, out),
            ),
{
    assert forall|out: Result<Seq<Seq<u8>>, WinErrorView>|
        #[trigger] collect_outcome(a, q, objs.skip(j), room2, out) implies collect_outcome(
            a,
            q,
            objs,
            len,
            prepend_images(imgs + more, out),
        ) by {
        let mid = prepend_images(more, out);
        assert(collect_outcome(a, q, objs.skip(i), room, mid));
        match out {
            Ok(rest) => {
                assert(imgs + (more + rest) =~= (imgs + more) + rest);
            },
            Err(e) => {},
        }
    }
}

/// A provider of performance data: its objects, their counters and instances, and the
/// values of the counters. `collect` writes the data of the objects a query asks for.
pub trait PerfProvider {
    /// Whether the provider names its answers with the specification functions below.
    open spec fn answers_named(&self) -> bool {
        false
    }

    /// The objects that `objects` gives.
    open spec fn objects_of(&self) -> Seq<PerfObjectTypeTemplate> {
        Seq::empty()
    }

    /// The outcomes that `first_counter` may give for an object.
    open spec fn first_counter_may_be(&self, t: PerfObjectTypeTemplate, r: Result<u32, WinErrorView>) -> bool {
        true
    }

    /// The time that `time` gives for an object.
    open spec fn time_of(&self, t: PerfObjectTypeTemplate) -> PerfClock {
        PerfClock { PerfTime: 0, PerfFreq: 0 }
    }

    /// The counters that `counters` gives for an object.
    open spec fn counters_of(&self, t: PerfObjectTypeTemplate) -> Seq<PerfCounterDefinitionTemplate> {
        Seq::empty()
    }

    /// The instances that `instances` gives for an object.
    open spec fn instances_of(&self, t: PerfObjectTypeTemplate) -> Option<Seq<InstanceTemplateView>> {
        None
    }

    /// The value that `data` gives.
    open spec fn data_of(
        &self,
        t: PerfObjectTypeTemplate,
        c: PerfCounterDefinitionTemplate,
        i: Option<InstanceTemplateView>,
        now: PerfClock,
    ) -> CounterValueView {
        CounterValueView::Zero
    }

    /// The index of the first counter of the provider in the system's table of names,
    /// which the system assigns when the provider is installed.
    fn first_counter(&mut self, for_object: &PerfObjectTypeTemplate) -> (r: Result<u32, WinError>)
        ensures
            old(self).answers_named() ==> old(self).first_counter_may_be(*for_object, err_view(r)),
            old(self).answers_named() ==> final(self).answers_named() == old(self).answers_named(),
            old(self).answers_named() ==> final(self).objects_of() == old(self).objects_of(),
            old(self).answers_named() ==> forall|t: PerfObjectTypeTemplate| #[trigger] final(self).time_of(t) == old(self).time_of(t),
            old(self).answers_named() ==> forall|t: PerfObjectTypeTemplate| #[trigger] final(self).counters_of(t) == old(self).counters_of(t),
            old(self).answers_named() ==> forall|t: PerfObjectTypeTemplate| #[trigger] final(self).instances_of(t) == old(self).instances_of(t),
            old(self).answers_named() ==> forall|t: PerfObjectTypeTemplate, c: PerfCounterDefinitionTemplate, i: Option<InstanceTemplateView>, now: PerfClock| #[trigger] final(self).data_of(t, c, i, now) == old(self).data_of(t, c, i, now),
            old(self).answers_named() ==> forall|t: PerfObjectTypeTemplate, r: Result<u32, WinErrorView>| #[trigger] final(self).first_counter_may_be(t, r) == old(self).first_counter_may_be(t, r),
    ;

    fn objects(&self) -> (r: Vec<PerfObjectTypeTemplate>)
        ensures
            self.answers_named() ==> r@ == self.objects_of(),
    ;

    fn time(&self, for_object: &PerfObjectTypeTemplate) -> (r: PerfClock)
        ensures
            self.answers_named() ==> r == self.time_of(*for_object),
    ;

    fn counters(&self, for_object: &PerfObjectTypeTemplate) -> (r: Vec<PerfCounterDefinitionTemplate>)
        ensures
            self.answers_named() ==> r@ == self.counters_of(*for_object),
    ;

    /// The instances of the object; `None` for an object without instances.
    fn instances(&self, for_object: &PerfObjectTypeTemplate) -> (r: Option<Vec<PerfInstanceDefinitionTemplate>>)
        ensures
            self.answers_named() ==> instances_views(
                match r {
                    Some(v) => Some(v@),
                    None => None,
                },
            ) == self.instances_of(*for_object),
    ;

    /// The value of a counter for an instance (`None`: the object has no instances).
    fn data(
        &self,
        for_object: &PerfObjectTypeTemplate,
        per_counter: &PerfCounterDefinitionTemplate,
        per_instance: Option<&PerfInstanceDefinitionTemplate>,
        now: PerfClock,
    ) -> (r: CounterValue)
        ensures
            self.answers_named() ==> r@ == self.data_of(*for_object, *per_counter, instance_view(per_instance), now),
    ;

    /// Whether the object is part of the answer to the query: every object for a global
    /// query, the objects whose name index is listed for a list of items, none otherwise.
    fn should_respond(&mut self, to_query: &QueryType, with_object: &PerfObjectTypeTemplate) -> (r: Result<bool, WinError>)
        ensures
            to_query is Global ==> r == Ok::<bool, WinError>(true),
            to_query is Costly || to_query is Foreign ==> r == Ok::<bool, WinError>(false),
            old(self).answers_named() ==> may_select(
                |t: PerfObjectTypeTemplate, x: Result<u32, WinErrorView>| old(self).first_counter_may_be(t, x),
                to_query@,
                *with_object,
                err_view(r),
            ),
            old(self).answers_named() ==> final(self).answers_named() == old(self).answers_named(),
            old(self).answers_named() ==> final(self).objects_of() == old(self).objects_of(),
            old(self).answers_named() ==> forall|t: PerfObjectTypeTemplate| #[trigger] final(self).time_of(t) == old(self).time_of(t),
            old(self).answers_named() ==> forall|t: PerfObjectTypeTemplate| #[trigger] final(self).counters_of(t) == old(self).counters_of(t),
            old(self).answers_named() ==> forall|t: PerfObjectTypeTemplate| #[trigger] final(self).instances_of(t) == old(self).instances_of(t),
            old(self).answers_named() ==> forall|t: PerfObjectTypeTemplate, c: PerfCounterDefinitionTemplate, i: Option<InstanceTemplateView>, now: PerfClock| #[trigger] final(self).data_of(t, c, i, now) == old(self).data_of(t, c, i, now),
            old(self).answers_named() ==> forall|t: PerfObjectTypeTemplate, r: Result<u32, WinErrorView>| #[trigger] final(self).first_counter_may_be(t, r) == old(self).first_counter_may_be(t, r),
    {
        match to_query {
            QueryType::Global => Ok(true),
            QueryType::Items(items) => {
                let base = match self.first_counter(with_object) {
                    Ok(b) => b,
                    Err(e) => {
                        proof {
                            let mf = |t: PerfObjectTypeTemplate, x: Result<u32, WinErrorView>| old(self).first_counter_may_be(t, x);
                            assert(old(self).answers_named() ==> mf(*with_object, Err(e@)));
                        }
                        return Err(e);
                    },
                };
                let answer = respond_to_items(items.as_slice(), base, with_object.name_offset);
                proof {
                    let mf = |t: PerfObjectTypeTemplate, x: Result<u32, WinErrorView>| old(self).first_counter_may_be(t, x);
                    assert(old(self).answers_named() ==> mf(*with_object, Ok(base)));
                }
                Ok(answer)
            },
            _ => Ok(false),
        }
    }

    /// Called before `collect`.
    fn prepare(&mut self)
        ensures
            old(self).answers_named() ==> final(self).answers_named() == old(self).answers_named(),
            old(self).answers_named() ==> final(self).objects_of() == old(self).objects_of(),
            old(self).answers_named() ==> forall|t: PerfObjectTypeTemplate| #[trigger] final(self).time_of(t) == old(self).time_of(t),
            old(self).answers_named() ==> forall|t: PerfObjectTypeTemplate| #[trigger] final(self).counters_of(t) == old(self).counters_of(t),
            old(self).answers_named() ==> forall|t: PerfObjectTypeTemplate| #[trigger] final(self).instances_of(t) == old(self).instances_of(t),
            old(self).answers_named() ==> forall|t: PerfObjectTypeTemplate, c: PerfCounterDefinitionTemplate, i: Option<InstanceTemplateView>, now: PerfClock| #[trigger] final(self).data_of(t, c, i, now) == old(self).data_of(t, c, i, now),
            old(self).answers_named() ==> forall|t: PerfObjectTypeTemplate, r: Result<u32, WinErrorView>| #[trigger] final(self).first_counter_may_be(t, r) == old(self).first_counter_may_be(t, r),
    {
    }

    /// Called after `collect`.
    fn finish(&mut self)
        ensures
            old(self).answers_named() ==> final(self).answers_named() == old(self).answers_named(),
            old(self).answers_named() ==> final(self).objects_of() == old(self).objects_of(),
            old(self).answers_named() ==> forall|t: PerfObjectTypeTemplate| #[trigger] final(self).time_of(t) == old(self).time_of(t),
            old(self).answers_named() ==> forall|t: PerfObjectTypeTemplate| #[trigger] final(self).counters_of(t) == old(self).counters_of(t),
            old(self).answers_named() ==> forall|t: PerfObjectTypeTemplate| #[trigger] final(self).instances_of(t) == old(self).instances_of(t),
            old(self).answers_named() ==> forall|t: PerfObjectTypeTemplate, c: PerfCounterDefinitionTemplate, i: Option<InstanceTemplateView>, now: PerfClock| #[trigger] final(self).data_of(t, c, i, now) == old(self).data_of(t, c, i, now),
            old(self).answers_named() ==> forall|t: PerfObjectTypeTemplate, r: Result<u32, WinErrorView>| #[trigger] final(self).first_counter_may_be(t, r) == old(self).first_counter_may_be(t, r),
    {
    }

    /// The bytes of one counter block, for an instance or for the object without
    /// instances.
    fn write_block(
        &self,
        object_template: &PerfObjectTypeTemplate,
        instance_template: Option<&PerfInstanceDefinitionTemplate>,
        counter_templates: &[PerfCounterDefinitionTemplate],
        counters_block_template: &CountersBlockTemplate,
        now: PerfClock,
    ) -> (r: Option<Vec<u8>>)
        requires
            counter_templates@.len() == counters_block_template.definitions().len(),
        ensures
            r matches Some(b) ==> exists|values: Seq<CounterValue>|
                values.len() == counter_templates@.len() && block_fits(
                    counters_block_template.byte_length(),
                    counters_block_template.definitions(),
                    values,
                ) && #[trigger] block_image(
                    counters_block_template.byte_length(),
                    counters_block_template.definitions(),
                    values,
                ) == b@,
    {
        let mut values: Vec<CounterValue> = Vec::new();
        let mut i: usize = 0;
        while i < counter_templates.len()
            invariant
                i <= counter_templates@.len(),
                values@.len() == i,
            decreases counter_templates.len() - i,
        {
            let value = self.data(object_template, &counter_templates[i], instance_template, now);
            values.push(value);
            i = i + 1;
        }
        counters_block_template.block(values.as_slice())
    }

    /// Write the bytes of an object into `buffer` from `at` and give their length: its
    /// header, its counter definitions, then its counter block, or each of its instances
    /// followed by its counter block, as `build_object` builds them from the provider's
    /// first counter, counters, instances and values. They parse back as one object that
    /// takes all of them. On an error the buffer is left as it was. For a provider that
    /// names its answers, the outcome is one that `object_outcome` allows: an object that
    /// does not fit after `at` gives `ERROR_MORE_DATA` (`lemma_outcome_determined`).
    #[verifier::spinoff_prover]
    #[verifier::rlimit(40)]
    fn collect_object(
        &mut self,
        object_template: &PerfObjectTypeTemplate,
        now: PerfClock,
        buffer: &mut [u8],
        at: usize,
    ) -> (r: Result<usize, WinError>)
        requires
            at <= old(buffer)@.len(),
        ensures
            final(buffer)@.len() == old(buffer)@.len(),
            r is Err ==> final(buffer)@ == old(buffer)@,
            r matches Ok(n) ==> at + n <= old(buffer)@.len(),
            r matches Ok(n) ==> final(buffer)@.take(at as int) == old(buffer)@.take(at as int),
            r matches Ok(n) ==> final(buffer)@.skip(at + n) == old(buffer)@.skip(at + n),
            r matches Ok(n) ==> is_object_image(final(buffer)@.subrange(at as int, at + n)),
            r matches Ok(n) ==> exists|first_counter: u32, ts: Seq<PerfCounterDefinitionTemplate>|
                #[trigger] object_written(final(buffer)@.subrange(at as int, at + n), *object_template, first_counter, ts, now),
            old(self).answers_named() ==> object_outcome(
                |t: PerfObjectTypeTemplate, x: Result<u32, WinErrorView>| old(self).first_counter_may_be(t, x),
                *object_template,
                old(self).counters_of(*object_template),
                old(self).instances_of(*object_template),
                answer_rows(
                    |t: PerfObjectTypeTemplate, c: PerfCounterDefinitionTemplate, i: Option<InstanceTemplateView>, n: PerfClock|
                        old(self).data_of(t, c, i, n),
                    *object_template,
                    old(self).counters_of(*object_template),
                    old(self).instances_of(*object_template),
                    now,
                ),
                now,
                old(buffer)@.len() - at,
                match r {
                    Ok(n) => Ok::<Seq<u8>, WinErrorView>(final(buffer)@.subrange(at as int, at + n)),
                    Err(e) => Err::<Seq<u8>, WinErrorView>(e@),
                },
            ),
            old(self).answers_named() ==> final(self).answers_named() == old(self).answers_named(),
            old(self).answers_named() ==> final(self).objects_of() == old(self).objects_of(),
            old(self).answers_named() ==> forall|t: PerfObjectTypeTemplate| #[trigger] final(self).time_of(t) == old(self).time_of(t),
            old(self).answers_named() ==> forall|t: PerfObjectTypeTemplate| #[trigger] final(self).counters_of(t) == old(self).counters_of(t),
            old(self).answers_named() ==> forall|t: PerfObjectTypeTemplate| #[trigger] final(self).instances_of(t) == old(self).instances_of(t),
            old(self).answers_named() ==> forall|t: PerfObjectTypeTemplate, c: PerfCounterDefinitionTemplate, i: Option<InstanceTemplateView>, now: PerfClock| #[trigger] final(self).data_of(t, c, i, now) == old(self).data_of(t, c, i, now),
            old(self).answers_named() ==> forall|t: PerfObjectTypeTemplate, r: Result<u32, WinErrorView>| #[trigger] final(self).first_counter_may_be(t, r) == old(self).first_counter_may_be(t, r),
    {
        let ghost mf = |t: PerfObjectTypeTemplate, x: Result<u32, WinErrorView>| old(self).first_counter_may_be(t, x);
        let ghost dat = |t: PerfObjectTypeTemplate, c: PerfCounterDefinitionTemplate, i: Option<InstanceTemplateView>, n: PerfClock|
            old(self).data_of(t, c, i, n);
        let ghost cs = old(self).counters_of(*object_template);
        let ghost is = old(self).instances_of(*object_template);
        let ghost room = (old(buffer)@.len() - at) as int;
        let first_counter = match self.first_counter(object_template) {
            Ok(f) => f,
            Err(e) => {
                proof {
                    if old(self).answers_named() {
                        lemma_outcome_first_counter_error(mf, *object_template, cs, is, answer_rows(dat, *object_template, cs, is, now), now, room, e@);
                    }
                }
                return Err(e);
            },
        };
        let r = self.collect_object_from(object_template, first_counter, now, buffer, at);
        proof {
            if old(self).answers_named() {
                let here = |t: PerfObjectTypeTemplate, c: PerfCounterDefinitionTemplate, i: Option<InstanceTemplateView>, n: PerfClock|
                    self.data_of(t, c, i, n);
                assert(here =~= dat);
                assert(self.counters_of(*object_template) == cs);
                assert(self.instances_of(*object_template) == is);
                assert(mf(*object_template, Ok(first_counter)));
                let out = match &r {
                    Ok(n) => Ok::<Seq<u8>, WinErrorView>(buffer@.subrange(at as int, at + *n)),
                    Err(e) => Err::<Seq<u8>, WinErrorView>(e@),
                };
                let (insts, vals) = choose|insts: Option<Seq<PerfInstanceDefinitionTemplate>>, vals: Seq<Seq<CounterValue>>|
                    #![trigger object_built(*object_template, first_counter, cs, insts, vals, now, room)]
                    built_as(*object_template, first_counter, cs, is, answer_rows(here, *object_template, cs, is, now), insts, vals, now, room, out)
                    && object_built(*object_template, first_counter, cs, insts, vals, now, room) == object_built(*object_template, first_counter, cs, insts, vals, now, room);
                lemma_outcome_built(mf, *object_template, cs, is, answer_rows(dat, *object_template, cs, is, now), now, room,
                    first_counter, insts, vals, out);
            }
        }
        r
    }

    /// Write the bytes of an object into `buffer` from `at` and give their length, with
    /// its first counter at `first_counter`: the bytes that `build_object` builds from the
    /// provider's counters, instances and values, each value asked for its counter and its
    /// instance. On an error the buffer is left as it was.
    #[verifier::spinoff_prover]
    #[verifier::rlimit(40)]
    fn collect_object_from(
        &self,
        object_template: &PerfObjectTypeTemplate,
        first_counter: u32,
        now: PerfClock,
        buffer: &mut [u8],
        at: usize,
    ) -> (r: Result<usize, WinError>)
        requires
            at <= old(buffer)@.len(),
        ensures
            final(buffer)@.len() == old(buffer)@.len(),
            r is Err ==> final(buffer)@ == old(buffer)@,
            r matches Ok(n) ==> at + n <= old(buffer)@.len(),
            r matches Ok(n) ==> final(buffer)@.take(at as int) == old(buffer)@.take(at as int),
            r matches Ok(n) ==> final(buffer)@.skip(at + n) == old(buffer)@.skip(at + n),
            r matches Ok(n) ==> is_object_image(final(buffer)@.subrange(at as int, at + n)),
            r matches Ok(n) ==> exists|ts: Seq<PerfCounterDefinitionTemplate>|
                #[trigger] object_written(final(buffer)@.subrange(at as int, at + n), *object_template, first_counter, ts, now),
            self.answers_named() ==> exists|insts: Option<Seq<PerfInstanceDefinitionTemplate>>, vals: Seq<Seq<CounterValue>>|
                #![trigger object_built(*object_template, first_counter, self.counters_of(*object_template), insts, vals, now, old(buffer)@.len() - at)]
                built_as(
                    *object_template,
                    first_counter,
                    self.counters_of(*object_template),
                    self.instances_of(*object_template),
                    answer_rows(
                        |t: PerfObjectTypeTemplate, c: PerfCounterDefinitionTemplate, i: Option<InstanceTemplateView>, n: PerfClock|
                            self.data_of(t, c, i, n),
                        *object_template,
                        self.counters_of(*object_template),
                        self.instances_of(*object_template),
                        now,
                    ),
                    insts,
                    vals,
                    now,
                    old(buffer)@.len() - at,
                    match r {
                        Ok(n) => Ok::<Seq<u8>, WinErrorView>(final(buffer)@.subrange(at as int, at + n)),
                        Err(e) => Err::<Seq<u8>, WinErrorView>(e@),
                    },
                ) && object_built(*object_template, first_counter, self.counters_of(*object_template), insts, vals, now, old(buffer)@.len() - at)
                    == object_built(*object_template, first_counter, self.counters_of(*object_template), insts, vals, now, old(buffer)@.len() - at),
    {
        let counter_templates = self.counters(object_template);
        let instance_templates = self.instances(object_template);
        let blocks: usize = match &instance_templates {
            Some(v) => v.len(),
            None => 1,
        };
        let mut rows: Vec<Vec<CounterValue>> = Vec::new();
        let mut b: usize = 0;
        while b < blocks
            invariant
                b <= blocks,
                blocks == (match instance_templates {
                    Some(v) => v@.len(),
                    None => 1,
                }),
                rows@.len() == b,
                forall|j: int| 0 <= j < b ==> (#[trigger] rows@[j])@.len() == counter_templates@.len(),
                forall|j: int, i: int|
                    0 <= j < b && 0 <= i < counter_templates@.len() ==> self.answers_named() ==> (#[trigger] rows@[j]@[i])@
                        == self.data_of(
                        *object_template,
                        counter_templates@[i],
                        match instance_templates {
                            Some(v) => Some(v@[j]@),
                            None => None,
                        },
                        now,
                    ),
            decreases blocks - b,
        {
            let instance = match &instance_templates {
                Some(v) => Some(&v[b]),
                None => None,
            };
            let mut row: Vec<CounterValue> = Vec::new();
            let mut i: usize = 0;
            while i < counter_templates.len()
                invariant
                    i <= counter_templates@.len(),
                    row@.len() == i,
                    forall|k: int| 0 <= k < i ==> self.answers_named() ==> (#[trigger] row@[k])@ == self.data_of(
                        *object_template,
                        counter_templates@[k],
                        instance_view(instance),
                        now,
                    ),
                decreases counter_templates.len() - i,
            {
                row.push(self.data(object_template, &counter_templates[i], instance, now));
                i = i + 1;
            }
            let ghost before = rows@;
            rows.push(row);
            proof {
                assert forall|j: int, i: int|
                    0 <= j < b + 1 && 0 <= i < counter_templates@.len() implies self.answers_named() ==> (#[trigger] rows@[j]@[i])@
                        == self.data_of(
                        *object_template,
                        counter_templates@[i],
                        match instance_templates {
                            Some(v) => Some(v@[j]@),
                            None => None,
                        },
                        now,
                    ) by {
                    if j < b {
                        assert(rows@[j] == before[j]);
                    }
                }
            }
            b = b + 1;
        }
        let instances = match &instance_templates {
            Some(v) => Some(v.as_slice()),
            None => None,
        };
        let ghost insts = templates_view(instances);
        let ghost vals = value_rows(rows@);
        let ghost cs = self.counters_of(*object_template);
        let ghost is = self.instances_of(*object_template);
        let ghost dat = |t: PerfObjectTypeTemplate, c: PerfCounterDefinitionTemplate, i: Option<InstanceTemplateView>, n: PerfClock|
            self.data_of(t, c, i, n);
        let ghost room = (old(buffer)@.len() - at) as int;
        proof {
            if self.answers_named() {
                assert(counter_templates@ == cs);
                assert(instances_views(insts) == is);
                assert forall|j: int, i: int|
                    0 <= j < vals.len() && 0 <= i < counter_templates@.len() implies (#[trigger] vals[j][i])@ == dat(
                        *object_template,
                        counter_templates@[i],
                        match is {
                            Some(v) => Some(v[j]),
                            None => None,
                        },
                        now,
                    ) by {
                    assert(vals[j] == rows@[j]@);
                    match instance_templates {
                        Some(v) => {
                            assert(is->0[j] == v@[j]@);
                        },
                        None => {},
                    }
                }
                lemma_rows_answered(dat, *object_template, cs, is, vals, now);
            }
        }
        let r = place_object(object_template, first_counter, counter_templates.as_slice(), instances, rows.as_slice(), now, buffer, at);
        proof {
            if self.answers_named() {
                let out = match &r {
                    Ok(n) => Ok::<Seq<u8>, WinErrorView>(buffer@.subrange(at as int, at + *n)),
                    Err(e) => Err::<Seq<u8>, WinErrorView>(e@),
                };
                assert(built_as(*object_template, first_counter, cs, is, answer_rows(dat, *object_template, cs, is, now), insts, vals, now, room, out));
            }
        }
        r
    }

    /// Write the data of the objects that the query asks for into `buffer`, one after
    /// the other, and report how many bytes and objects were written; the rest of the
    /// buffer is left as it was. On an error, the objects written before it stay in the
    /// buffer. For a provider that names its answers, the objects written are those that
    /// `collect_outcome` allows, in order: the objects the query selects, each written in
    /// the room the others left; and an error is one it allows.
    #[verifier::spinoff_prover]
    #[verifier::rlimit(60)]
    fn collect(&mut self, query: QueryType, buffer: &mut [u8]) -> (r: Result<Collected, WinError>)
        ensures
            final(buffer)@.len() == old(buffer)@.len(),
            r matches Ok(c) ==> c.total_bytes <= old(buffer)@.len(),
            r matches Ok(c) ==> objects_at(final(buffer)@, 0, c.num_object_types as nat) == Some(c.total_bytes as int),
            r matches Ok(c) ==> final(buffer)@.skip(c.total_bytes as int) == old(buffer)@.skip(c.total_bytes as int),
            old(self).answers_named() ==> (r matches Ok(c) ==> exists|imgs: Seq<Seq<u8>>|
                #![trigger concat_bytes(imgs)]
                collect_outcome(
                    (ProviderAnswers {
                        first_counter: |t: PerfObjectTypeTemplate, x: Result<u32, WinErrorView>| old(self).first_counter_may_be(t, x),
                        time: |t: PerfObjectTypeTemplate| old(self).time_of(t),
                        counters: |t: PerfObjectTypeTemplate| old(self).counters_of(t),
                        instances: |t: PerfObjectTypeTemplate| old(self).instances_of(t),
                        data: |t: PerfObjectTypeTemplate, c: PerfCounterDefinitionTemplate, i: Option<InstanceTemplateView>, n: PerfClock|
                            old(self).data_of(t, c, i, n),
                    }),
                    query@,
                    old(self).objects_of(),
                    old(buffer)@.len() as int,
                    Ok(imgs),
                ) && imgs.len() == c.num_object_types && concat_bytes(imgs) == final(buffer)@.take(c.total_bytes as int)),
            old(self).answers_named() ==> (r matches Err(e) ==> collect_outcome(
                (ProviderAnswers {
                    first_counter: |t: PerfObjectTypeTemplate, x: Result<u32, WinErrorView>| old(self).first_counter_may_be(t, x),
                    time: |t: PerfObjectTypeTemplate| old(self).time_of(t),
                    counters: |t: PerfObjectTypeTemplate| old(self).counters_of(t),
                    instances: |t: PerfObjectTypeTemplate| old(self).instances_of(t),
                    data: |t: PerfObjectTypeTemplate, c: PerfCounterDefinitionTemplate, i: Option<InstanceTemplateView>, n: PerfClock|
                        old(self).data_of(t, c, i, n),
                }),
                query@,
                old(self).objects_of(),
                old(buffer)@.len() as int,
                Err(e@),
            )),
    {
        let ghost a = ProviderAnswers {
            first_counter: |t: PerfObjectTypeTemplate, x: Result<u32, WinErrorView>| old(self).first_counter_may_be(t, x),
            time: |t: PerfObjectTypeTemplate| old(self).time_of(t),
            counters: |t: PerfObjectTypeTemplate| old(self).counters_of(t),
            instances: |t: PerfObjectTypeTemplate| old(self).instances_of(t),
            data: |t: PerfObjectTypeTemplate, c: PerfCounterDefinitionTemplate, i: Option<InstanceTemplateView>, n: PerfClock|
                old(self).data_of(t, c, i, n),
        };
        let ghost named = old(self).answers_named();
        let ghost q = query@;
        self.prepare();
        let objects = self.objects();
        let ghost objs = objects@;
        let mut total_bytes: usize = 0;
        let mut num_object_types: usize = 0;
        let ghost mut imgs: Seq<Seq<u8>> = seq![];
        let buffer_len = buffer.len();
        proof {
            if named {
                assert(objs.skip(0) =~= objs);
                assert forall|out: Result<Seq<Seq<u8>>, WinErrorView>|
                    #[trigger] collect_outcome(a, q, objs.skip(0), buffer_len as int, out) implies collect_outcome(
                        a,
                        q,
                        objs,
                        buffer_len as int,
                        prepend_images(imgs, out),
                    ) by {
                    match out {
                        Ok(rest) => {
                            assert(imgs + rest =~= rest);
                        },
                        Err(e) => {},
                    }
                }
            }
        }
        let mut i: usize = 0;
        while i < objects.len()
            invariant
                i <= objects@.len(),
                objs == objects@,
                num_object_types <= i,
                buffer@.len() == buffer_len,
                total_bytes <= buffer@.len(),
                buffer@.len() == old(buffer)@.len(),
                imgs.len() == num_object_types,
                forall|k: int| 0 <= k < imgs.len() ==> is_object_image(#[trigger] imgs[k]),
                concat_bytes(imgs).len() == total_bytes,
                buffer@.take(total_bytes as int) == concat_bytes(imgs),
                buffer@.skip(total_bytes as int) == old(buffer)@.skip(total_bytes as int),
                q == query@,
                named == old(self).answers_named(),
                a == (ProviderAnswers {
                    first_counter: |t: PerfObjectTypeTemplate, x: Result<u32, WinErrorView>| old(self).first_counter_may_be(t, x),
                    time: |t: PerfObjectTypeTemplate| old(self).time_of(t),
                    counters: |t: PerfObjectTypeTemplate| old(self).counters_of(t),
                    instances: |t: PerfObjectTypeTemplate| old(self).instances_of(t),
                    data: |t: PerfObjectTypeTemplate, c: PerfCounterDefinitionTemplate, i: Option<InstanceTemplateView>, n: PerfClock|
                        old(self).data_of(t, c, i, n),
                }),
                named ==> self.answers_named(),
                named ==> objs == old(self).objects_of(),
                named ==> a == (ProviderAnswers {
                    first_counter: |t: PerfObjectTypeTemplate, x: Result<u32, WinErrorView>| self.first_counter_may_be(t, x),
                    time: |t: PerfObjectTypeTemplate| self.time_of(t),
                    counters: |t: PerfObjectTypeTemplate| self.counters_of(t),
                    instances: |t: PerfObjectTypeTemplate| self.instances_of(t),
                    data: |t: PerfObjectTypeTemplate, c: PerfCounterDefinitionTemplate, i: Option<InstanceTemplateView>, n: PerfClock|
                        self.data_of(t, c, i, n),
                }),
                named ==> forall|out: Result<Seq<Seq<u8>>, WinErrorView>|
                    #[trigger] collect_outcome(a, q, objs.skip(i as int), buffer_len - total_bytes, out) ==> collect_outcome(
                        a,
                        q,
                        objs,
                        buffer_len as int,
                        prepend_images(imgs, out),
                    ),
            decreases objects.len() - i,
        {
            let object = &objects[i];
            let selected = match self.should_respond(&query, object) {
                Ok(s) => s,
                Err(e) => {
                    proof {
                        if named {
                            lemma_collect_refused(a, q, objs, i as int, buffer_len - total_bytes, e@);
                            assert(prepend_images(imgs, Err(e@)) == Err::<Seq<Seq<u8>>, WinErrorView>(e@));
                            assert(collect_outcome(a, q, objs, buffer_len as int, Err(e@)));
                        }
                    }
                    return Err(e);
                },
            };
            proof {
                if named {
                    assert(may_select(a.first_counter, q, objs[i as int], Ok(selected)));
                    assert(a == (ProviderAnswers {
                        first_counter: |t: PerfObjectTypeTemplate, x: Result<u32, WinErrorView>| self.first_counter_may_be(t, x),
                        time: |t: PerfObjectTypeTemplate| self.time_of(t),
                        counters: |t: PerfObjectTypeTemplate| self.counters_of(t),
                        instances: |t: PerfObjectTypeTemplate| self.instances_of(t),
                        data: |t: PerfObjectTypeTemplate, c: PerfCounterDefinitionTemplate, i: Option<InstanceTemplateView>, n: PerfClock|
                            self.data_of(t, c, i, n),
                    }));
                }
            }
            if selected {
                let now = self.time(object);
                let ghost before = buffer@;
                let length = match self.collect_object(object, now, buffer, total_bytes) {
                    Ok(n) => n,
                    Err(e) => {
                        proof {
                            if named {
                                assert(now == (a.time)(objs[i as int]));
                                assert(object_outcome_of(a, objs[i as int], buffer_len - total_bytes, Err(e@)));
                                lemma_collect_failed(a, q, objs, i as int, buffer_len - total_bytes, e@);
                                assert(prepend_images(imgs, Err(e@)) == Err::<Seq<Seq<u8>>, WinErrorView>(e@));
                                assert(collect_outcome(a, q, objs, buffer_len as int, Err(e@)));
                            }
                        }
                        return Err(e);
                    },
                };
                proof {
                    let img = buffer@.subrange(total_bytes as int, total_bytes + length);
                    let prev = imgs;
                    lemma_object_placed(old(buffer)@, before, buffer@, prev, total_bytes as int, length as int);
                    if named {
                        assert(now == (a.time)(objs[i as int]));
                        assert(object_outcome_of(a, objs[i as int], buffer_len - total_bytes, Ok(img)));
                        lemma_collect_written(a, q, objs, i as int, buffer_len - total_bytes, img);
                        lemma_collect_prefix(a, q, objs, i as int, i + 1, buffer_len as int, buffer_len - total_bytes,
                            buffer_len - total_bytes - length, prev, seq![img]);
                        assert(prev + seq![img] =~= prev.push(img));
                        assert(a == (ProviderAnswers {
                            first_counter: |t: PerfObjectTypeTemplate, x: Result<u32, WinErrorView>| self.first_counter_may_be(t, x),
                            time: |t: PerfObjectTypeTemplate| self.time_of(t),
                            counters: |t: PerfObjectTypeTemplate| self.counters_of(t),
                            instances: |t: PerfObjectTypeTemplate| self.instances_of(t),
                            data: |t: PerfObjectTypeTemplate, c: PerfCounterDefinitionTemplate, i: Option<InstanceTemplateView>, n: PerfClock|
                                self.data_of(t, c, i, n),
                        }));
                    }
                    imgs = prev.push(img);
                    assert forall|k: int| 0 <= k < imgs.len() implies is_object_image(#[trigger] imgs[k]) by {
                        if k < prev.len() {
                            assert(imgs[k] == prev[k]);
                        }
                    }
                }
                total_bytes = total_bytes + length;
                num_object_types = num_object_types + 1;
            } else {
                proof {
                    if named {
                        lemma_collect_passed(a, q, objs, i as int, buffer_len - total_bytes);
                        lemma_collect_prefix(a, q, objs, i as int, i + 1, buffer_len as int, buffer_len - total_bytes,
                            buffer_len - total_bytes, imgs, seq![]);
                        assert(imgs + seq![] =~= imgs);
                        assert forall|out: Result<Seq<Seq<u8>>, WinErrorView>|
                            #[trigger] collect_outcome(a, q, objs.skip(i + 1), buffer_len - total_bytes, out) implies
                            prepend_images(seq![], out) == out by {
                            match out {
                                Ok(rest) => {
                                    assert(seq![] + rest =~= rest);
                                },
                                Err(e) => {},
                            }
                        }
                    }
                }
            }
            i = i + 1;
        }
        self.finish();
        proof {
            assert(buffer@.subrange(0, total_bytes as int) =~= buffer@.take(total_bytes as int));
            lemma_images_parse(buffer@, 0, imgs);
            if named {
                lemma_collect_none(a, q, objs, buffer_len - total_bytes);
                let empty: Seq<Seq<u8>> = Seq::empty();
                assert(imgs + empty =~= imgs);
                assert(collect_outcome(a, q, objs, buffer_len as int, prepend_images(imgs, Ok(empty))));
            }
        }
        Ok(Collected { total_bytes, num_object_types })
    }
}

/// The first cached counter base of the object of name offset `name_offset`.
pub open spec fn cached_first_counter(cache: Seq<(u32, u32)>, name_offset: u32) -> Option<u32>
    decreases cache.len(),
{
    if cache.len() == 0 {
        None
    } else if cache[0].0 == name_offset {
        Some(cache[0].1)
    } else {
        cached_first_counter(cache.drop_first(), name_offset)
    }
}

/// A provider that asks its inner provider for the first counter of an object once, and
/// answers from its cache afterwards.
pub struct CachingPerfProvider<X> {
    inner: X,
    first_counters: Vec<(u32, u32)>,
}

impl<X> CachingPerfProvider<X> {
    /// The cached pairs of a name offset and its first counter, oldest first.
    pub closed spec fn cache(&self) -> Seq<(u32, u32)> {
        self.first_counters@
    }

    /// The inner provider.
    pub closed spec fn inner(&self) -> X {
        self.inner
    }

    pub fn new(inner: X) -> (r: Self)
        ensures
            r.cache() == Seq::<(u32, u32)>::empty(),
            r.inner() == inner,
    {
        CachingPerfProvider { inner, first_counters: Vec::new() }
    }

    fn lookup_first_counter(&self, name_offset: u32) -> (r: Option<u32>)
        ensures
            r == cached_first_counter(self.cache(), name_offset),
    {
        let n = self.first_counters.len();
        let mut i: usize = 0;
        assert(self.cache().skip(0) =~= self.cache());
        while i < n
            invariant
                n == self.first_counters@.len(),
                i <= n,
                cached_first_counter(self.cache(), name_offset) == cached_first_counter(
                    self.cache().skip(i as int),
                    name_offset,
                ),
            decreases n - i,
        {
            let (offset, base) = self.first_counters[i];
            proof {
                assert(self.cache().skip(i as int)[0] == (offset, base));
                assert(self.cache().skip(i as int).drop_first() =~= self.cache().skip(i + 1));
            }
            if offset == name_offset {
                return Some(base);
            }
            i = i + 1;
        }
        None
    }

    fn cache_first_counter(&mut self, name_offset: u32, first_counter: u32)
        ensures
            final(self).cache() == old(self).cache().push((name_offset, first_counter)),
            final(self).inner() == old(self).inner(),
    {
        self.first_counters.push((name_offset, first_counter));
    }
}

/// Law: a first counter put in the cache for an object that had none is what the cache
/// answers afterwards.
pub proof fn lemma_cache_answers(cache: Seq<(u32, u32)>, name_offset: u32, first_counter: u32)
    requires
        cached_first_counter(cache, name_offset) is None,
    ensures
        cached_first_counter(cache.push((name_offset, first_counter)), name_offset) == Some(first_counter),
    decreases cache.len(),
{
    if cache.len() > 0 {
        assert(cache.push((name_offset, first_counter)).drop_first() =~= cache.drop_first().push(
            (name_offset, first_counter),
        ));
        lemma_cache_answers(cache.drop_first(), name_offset, first_counter);
    }
}

impl<X: PerfProvider> PerfProvider for CachingPerfProvider<X> {
    open spec fn answers_named(&self) -> bool {
        self.inner().answers_named()
    }

    open spec fn objects_of(&self) -> Seq<PerfObjectTypeTemplate> {
        self.inner().objects_of()
    }

    /// What the inner provider may give for the object, or any first counter: one cached
    /// for another object of the same name offset is given back as it is.
    open spec fn first_counter_may_be(&self, t: PerfObjectTypeTemplate, r: Result<u32, WinErrorView>) -> bool {
        self.inner().first_counter_may_be(t, r) || r is Ok
    }

    open spec fn time_of(&self, t: PerfObjectTypeTemplate) -> PerfClock {
        self.inner().time_of(t)
    }

    open spec fn counters_of(&self, t: PerfObjectTypeTemplate) -> Seq<PerfCounterDefinitionTemplate> {
        self.inner().counters_of(t)
    }

    open spec fn instances_of(&self, t: PerfObjectTypeTemplate) -> Option<Seq<InstanceTemplateView>> {
        self.inner().instances_of(t)
    }

    open spec fn data_of(
        &self,
        t: PerfObjectTypeTemplate,
        c: PerfCounterDefinitionTemplate,
        i: Option<InstanceTemplateView>,
        now: PerfClock,
    ) -> CounterValueView {
        self.inner().data_of(t, c, i, now)
    }

    /// The cached first counter of the object, or the inner provider's, which is then
    /// cached.
    fn first_counter(&mut self, for_object: &PerfObjectTypeTemplate) -> (r: Result<u32, WinError>)
        ensures
            cached_first_counter(old(self).cache(), for_object.name_offset) matches Some(v) ==> r
                == Ok::<u32, WinError>(v) && final(self).cache() == old(self).cache(),
            cached_first_counter(old(self).cache(), for_object.name_offset) is None ==> (match r {
                Ok(v) => final(self).cache() == old(self).cache().push((for_object.name_offset, v)),
                Err(_) => final(self).cache() == old(self).cache(),
            }),
    {
        let ghost before = *self;
        match self.lookup_first_counter(for_object.name_offset) {
            Some(cached) => {
                proof {
                    lemma_caching_answers_kept(before, *self);
                }
                Ok(cached)
            },
            None => {
                let first_counter = match self.inner.first_counter(for_object) {
                    Ok(v) => v,
                    Err(e) => {
                        proof {
                            lemma_caching_answers_kept(before, *self);
                        }
                        return Err(e);
                    },
                };
                self.cache_first_counter(for_object.name_offset, first_counter);
                proof {
                    lemma_caching_answers_kept(before, *self);
                }
                Ok(first_counter)
            },
        }
    }

    fn objects(&self) -> Vec<PerfObjectTypeTemplate> {
        let r = self.inner.objects();
        assert(self.answers_named() == self.inner().answers_named());
        assert(self.objects_of() == self.inner().objects_of());
        r
    }

    fn time(&self, for_object: &PerfObjectTypeTemplate) -> PerfClock {
        let r = self.inner.time(for_object);
        assert(self.answers_named() == self.inner().answers_named());
        assert(self.time_of(*for_object) == self.inner().time_of(*for_object));
        r
    }

    fn counters(&self, for_object: &PerfObjectTypeTemplate) -> Vec<PerfCounterDefinitionTemplate> {
        let r = self.inner.counters(for_object);
        assert(self.answers_named() == self.inner().answers_named());
        assert(self.counters_of(*for_object) == self.inner().counters_of(*for_object));
        r
    }

    fn instances(&self, for_object: &PerfObjectTypeTemplate) -> Option<Vec<PerfInstanceDefinitionTemplate>> {
        let r = self.inner.instances(for_object);
        assert(self.answers_named() == self.inner().answers_named());
        assert(self.instances_of(*for_object) == self.inner().instances_of(*for_object));
        r
    }

    fn data(
        &self,
        for_object: &PerfObjectTypeTemplate,
        per_counter: &PerfCounterDefinitionTemplate,
        per_instance: Option<&PerfInstanceDefinitionTemplate>,
        now: PerfClock,
    ) -> CounterValue {
        let r = self.inner.data(for_object, per_counter, per_instance, now);
        assert(self.answers_named() == self.inner().answers_named());
        assert(self.data_of(*for_object, *per_counter, instance_view(per_instance), now) == self.inner().data_of(
            *for_object,
            *per_counter,
            instance_view(per_instance),
            now,
        ));
        r
    }

    /// The inner provider decides, with its own first counters.
    fn should_respond(&mut self, to_query: &QueryType, with_object: &PerfObjectTypeTemplate) -> (r: Result<bool, WinError>) {
        let ghost before = *self;
        let r = self.inner.should_respond(to_query, with_object);
        proof {
            lemma_caching_answers_kept(before, *self);
            let mi = |t: PerfObjectTypeTemplate, x: Result<u32, WinErrorView>| before.inner().first_counter_may_be(t, x);
            let mc = |t: PerfObjectTypeTemplate, x: Result<u32, WinErrorView>| before.first_counter_may_be(t, x);
            if before.answers_named() {
                match to_query@ {
                    QueryView::Items(items) => match err_view(r) {
                        Ok(b) => {
                            let f = choose|f: u32| #[trigger] mi(*with_object, Ok(f)) && b == items_include(items, f, with_object.name_offset);
                            assert(mc(*with_object, Ok(f)));
                        },
                        Err(e) => {
                            assert(mc(*with_object, Err(e)));
                        },
                    },
                    _ => {},
                }
            }
        }
        r
    }
}

/// A caching provider keeps its answers when its inner provider keeps its own.
proof fn lemma_caching_answers_kept<X: PerfProvider>(before: CachingPerfProvider<X>, after: CachingPerfProvider<X>)
    requires
        before.inner().answers_named() ==> after.inner().answers_named() == before.inner().answers_named(),
        before.inner().answers_named() ==> after.inner().objects_of() == before.inner().objects_of(),
        before.inner().answers_named() ==> forall|t: PerfObjectTypeTemplate| #[trigger] after.inner().time_of(t) == before.inner().time_of(t),
        before.inner().answers_named() ==> forall|t: PerfObjectTypeTemplate| #[trigger] after.inner().counters_of(t) == before.inner().counters_of(t),
        before.inner().answers_named() ==> forall|t: PerfObjectTypeTemplate| #[trigger] after.inner().instances_of(t) == before.inner().instances_of(t),
        before.inner().answers_named() ==> forall|t: PerfObjectTypeTemplate, c: PerfCounterDefinitionTemplate, i: Option<InstanceTemplateView>, now: PerfClock| #[trigger] after.inner().data_of(t, c, i, now) == before.inner().data_of(t, c, i, now),
        before.inner().answers_named() ==> forall|t: PerfObjectTypeTemplate, r: Result<u32, WinErrorView>| #[trigger] after.inner().first_counter_may_be(t, r) == before.inner().first_counter_may_be(t, r),
    ensures
        before.answers_named() ==> after.answers_named() == before.answers_named(),
        before.answers_named() ==> after.objects_of() == before.objects_of(),
        before.answers_named() ==> forall|t: PerfObjectTypeTemplate| #[trigger] after.time_of(t) == before.time_of(t),
        before.answers_named() ==> forall|t: PerfObjectTypeTemplate| #[trigger] after.counters_of(t) == before.counters_of(t),
        before.answers_named() ==> forall|t: PerfObjectTypeTemplate| #[trigger] after.instances_of(t) == before.instances_of(t),
        before.answers_named() ==> forall|t: PerfObjectTypeTemplate, c: PerfCounterDefinitionTemplate, i: Option<InstanceTemplateView>, now: PerfClock| #[trigger] after.data_of(t, c, i, now) == before.data_of(t, c, i, now),
        before.answers_named() ==> forall|t: PerfObjectTypeTemplate, r: Result<u32, WinErrorView>| #[trigger] after.first_counter_may_be(t, r) == before.first_counter_may_be(t, r),
{
    if before.answers_named() {
        let bi = before.inner();
        let ai = after.inner();
        assert forall|t: PerfObjectTypeTemplate| #[trigger] after.time_of(t) == before.time_of(t) by {
            assert(ai.time_of(t) == bi.time_of(t));
        }
        assert forall|t: PerfObjectTypeTemplate| #[trigger] after.counters_of(t) == before.counters_of(t) by {
            assert(ai.counters_of(t) == bi.counters_of(t));
        }
        assert forall|t: PerfObjectTypeTemplate| #[trigger] after.instances_of(t) == before.instances_of(t) by {
            assert(ai.instances_of(t) == bi.instances_of(t));
        }
        assert forall|t: PerfObjectTypeTemplate, c: PerfCounterDefinitionTemplate, i: Option<InstanceTemplateView>, now: PerfClock|
            #[trigger] after.data_of(t, c, i, now) == before.data_of(t, c, i, now) by {
            assert(ai.data_of(t, c, i, now) == bi.data_of(t, c, i, now));
        }
        assert forall|t: PerfObjectTypeTemplate, r: Result<u32, WinErrorView>|
            #[trigger] after.first_counter_may_be(t, r) == before.first_counter_may_be(t, r) by {
            assert(ai.first_counter_may_be(t, r) == bi.first_counter_may_be(t, r));
        }
    }
}

impl<'a> From<&'a PerfCounterDefinitionTemplate> for CounterId {
    fn from(value: &'a PerfCounterDefinitionTemplate) -> (r: Self) {
        CounterId::new(value.name_offset)
    }
}

impl<'a> vstd::std_specs::convert::FromSpecImpl<&'a PerfCounterDefinitionTemplate> for CounterId {
    open spec fn obeys_from_spec() -> bool {
        true
    }

    open spec fn from_spec(v: &'a PerfCounterDefinitionTemplate) -> CounterId {
        CounterId { name_index_offset: v.name_offset }
    }
}

impl InstanceId {
    /// The identity of the instance that a template describes.
    pub fn from_template(value: &PerfInstanceDefinitionTemplate) -> (r: Self)
        ensures
            r.id_raw() == value.UniqueID,
            r.name_view() == value.Name@,
    {
        InstanceId::new(value.UniqueID, value.Name.as_slice())
    }

}

impl PerfInstanceDefinitionTemplate {
    /// The template of an instance of this identity: its name and its unique ID.
    pub fn from_instance(instance: &InstanceId) -> (r: Self)
        ensures
            r.UniqueID == instance.id_raw(),
            r.Name@ == instance.name_view(),
            r.ParentObjectTitleIndex == 0,
            r.ParentObjectInstance == 0,
    {
        let this = PerfInstanceDefinitionTemplate::new(vstd::slice::slice_to_vec(instance.name()));
        match instance.unique_id() {
            Some(unique_id) => this.with_unique_id(unique_id),
            None => this,
        }
    }
}

} // verus!




