//! Parsers of performance data: a data block, the objects in it, their counter definitions,
//! instances and counter blocks. Offsets inside a structure count from the first byte of
//! that structure.
#![allow(non_snake_case)]
use vstd::prelude::*;
use crate::format::first_nul;
use crate::perf::raw::{
    spec_read_counter_definition, spec_read_data_block, spec_read_instance_definition,
    spec_read_object_type, u16_at, u32_at,
    PERF_COUNTER_BLOCK, PERF_COUNTER_BLOCK_SIZE, PERF_COUNTER_DEFINITION,
    PERF_COUNTER_DEFINITION_SIZE, PERF_DATA_BLOCK, PERF_DATA_BLOCK_SIZE, PERF_INSTANCE_DEFINITION,
    PERF_INSTANCE_DEFINITION_SIZE, PERF_OBJECT_TYPE, PERF_OBJECT_TYPE_SIZE,
};
use crate::perf::useful::{InstanceId, PERF_NO_INSTANCES};

verus! {

/// The input does not hold the structure that was asked for: it is too short, a string in
/// it is not nul-terminated or has an odd number of bytes, or a list of structures in it
/// does not advance.
#[derive(Clone, Copy, Debug, PartialEq, Eq, Structural)]
pub struct ParseError;

/// The UTF-16 code units of `len` bytes at `from`.
pub open spec fn units_at(b: Seq<u8>, from: int, len: int) -> Seq<u16> {
    Seq::new((len / 2) as nat, |i: int| u16_at(b, from + 2 * i))
}

/// The nul-terminated UTF-16 string of `len` bytes at `offset` from `start`, without its
/// nul: there must be a nul in those bytes, and an even number of them.
pub open spec fn spec_u16cstr(b: Seq<u8>, start: int, offset: int, len: int) -> Option<Seq<u16>> {
    let from = start + offset;
    if from + len > b.len() || len % 2 != 0 {
        None
    } else {
        let units = units_at(b, from, len);
        let k = first_nul(units);
        if k < units.len() {
            Some(units.take(k as int))
        } else {
            None
        }
    }
}

/// The string of `len` bytes at `offset` from `start`, up to its first nul.
pub fn u16cstr(input: &[u8], start: usize, offset: u32, len: u32) -> (r: Result<Vec<u16>, ParseError>)
    requires
        start <= input@.len(),
    ensures
        match r {
            Ok(s) => spec_u16cstr(input@, start as int, offset as int, len as int) == Some(s@),
            Err(_) => spec_u16cstr(input@, start as int, offset as int, len as int) is None,
        },
{
    let n = input.len();
    if offset as usize > n - start || len as usize > n - start - offset as usize {
        return Err(ParseError);
    }
    if len % 2 != 0 {
        return Err(ParseError);
    }
    let from = start + offset as usize;
    let count = (len / 2) as usize;
    let ghost units = units_at(input@, from as int, len as int);
    let mut out: Vec<u16> = Vec::new();
    let mut i: usize = 0;
    while i < count
        invariant
            n == input@.len(),
            from + len <= n,
            from == start + offset,
            len % 2 == 0,
            count == len / 2,
            units == units_at(input@, from as int, len as int),
            i <= count,
            out@ == units.take(i as int),
            forall|j: int| 0 <= j < i ==> units[j] != 0,
        decreases count - i,
    {
        let p = from + 2 * i;
        let unit = (input[p] as u16) | ((input[p + 1] as u16) << 8u16);
        assert(unit == units[i as int]);
        if unit == 0 {
            proof {
                lemma_first_nul_at(units, i as nat);
            }
            return Ok(out);
        }
        out.push(unit);
        proof {
            assert(units.take(i + 1) =~= units.take(i as int).push(unit));
        }
        i = i + 1;
    }
    proof {
        lemma_no_nul(units);
    }
    Err(ParseError)
}

/// The first nul of `s` is at `k` when `s[k]` is nul and nothing before it is.
pub(crate) proof fn lemma_first_nul_at(s: Seq<u16>, k: nat)
    requires
        k < s.len(),
        s[k as int] == 0,
        forall|j: int| 0 <= j < k ==> s[j] != 0,
    ensures
        first_nul(s) == k,
    decreases k,
{
    if k > 0 {
        let t = s.drop_first();
        assert forall|j: int| 0 <= j < k - 1 implies t[j] != 0 by {
            assert(t[j] == s[j + 1]);
        }
        lemma_first_nul_at(t, (k - 1) as nat);
    }
}

/// Without a nul, the first nul is past the end.
pub(crate) proof fn lemma_no_nul(s: Seq<u16>)
    requires
        forall|j: int| 0 <= j < s.len() ==> s[j] != 0,
    ensures
        first_nul(s) == s.len(),
    decreases s.len(),
{
    if s.len() > 0 {
        let t = s.drop_first();
        assert forall|j: int| 0 <= j < t.len() implies t[j] != 0 by {
            assert(t[j] == s[j + 1]);
        }
        lemma_no_nul(t);
    }
}

/// A counter block: its header and its bytes, the header included.
#[derive(Clone, Debug)]
pub struct PerfCounterBlock {
    pub raw: PERF_COUNTER_BLOCK,
    pub bytes: Vec<u8>,
}

pub struct CounterBlockView {
    pub raw: PERF_COUNTER_BLOCK,
    pub data: Seq<u8>,
}

impl View for PerfCounterBlock {
    type V = CounterBlockView;

    open spec fn view(&self) -> CounterBlockView {
        CounterBlockView { raw: self.raw, data: self.bytes@ }
    }
}

impl PerfCounterBlock {
    /// The length of the block in bytes.
    pub fn len(&self) -> (r: usize)
        ensures
            r == self.raw.ByteLength,
    {
        self.raw.ByteLength as usize
    }

    /// The bytes of the block, its header included.
    pub fn data(&self) -> (r: &[u8])
        ensures
            r@ == self.bytes@,
    {
        self.bytes.as_slice()
    }
}

/// The counter block at `pos` and where the input goes on after it: `ByteLength` bytes
/// from its start.
pub open spec fn spec_counter_block(b: Seq<u8>, pos: int) -> Option<(int, CounterBlockView)> {
    if pos + PERF_COUNTER_BLOCK_SIZE > b.len() {
        None
    } else {
        let n = u32_at(b, pos);
        if pos + n > b.len() {
            None
        } else {
            Some((pos + n, CounterBlockView { raw: PERF_COUNTER_BLOCK { ByteLength: n }, data: b.subrange(pos, pos + n) }))
        }
    }
}

/// Copy of the bytes from `from` to `to`.
fn copy_range(b: &[u8], from: usize, to: usize) -> (r: Vec<u8>)
    requires
        from <= to <= b@.len(),
    ensures
        r@ == b@.subrange(from as int, to as int),
{
    let mut out: Vec<u8> = Vec::new();
    let mut i: usize = from;
    while i < to
        invariant
            from <= i <= to <= b@.len(),
            out@ == b@.subrange(from as int, i as int),
        decreases to - i,
    {
        out.push(b[i]);
        proof {
            assert(b@.subrange(from as int, i + 1) =~= b@.subrange(from as int, i as int).push(b@[i as int]));
        }
        i = i + 1;
    }
    out
}

/// The counter block at `pos`, and the position after it.
pub fn counter_block_at(input: &[u8], pos: usize) -> (r: Result<(usize, PerfCounterBlock), ParseError>)
    requires
        pos <= input@.len(),
    ensures
        match r {
            Ok((end, block)) => spec_counter_block(input@, pos as int) == Some((end as int, block@)),
            Err(_) => spec_counter_block(input@, pos as int) is None,
        },
{
    let n = input.len();
    if PERF_COUNTER_BLOCK_SIZE > n - pos {
        return Err(ParseError);
    }
    let raw = PERF_COUNTER_BLOCK::read(input, pos);
    if raw.ByteLength as usize > n - pos {
        return Err(ParseError);
    }
    let end = pos + raw.ByteLength as usize;
    let bytes = copy_range(input, pos, end);
    Ok((end, PerfCounterBlock { raw, bytes }))
}

/// The counter block at the start of `input`, and the number of bytes it takes.
pub fn perf_counter_block(input: &[u8]) -> (r: Result<(usize, PerfCounterBlock), ParseError>)
    ensures
        match r {
            Ok((end, block)) => spec_counter_block(input@, 0) == Some((end as int, block@)),
            Err(_) => spec_counter_block(input@, 0) is None,
        },
{
    counter_block_at(input, 0)
}

/// A counter definition.
#[derive(Clone, Copy, Debug)]
pub struct PerfCounterDefinition {
    pub raw: PERF_COUNTER_DEFINITION,
}

/// The counter definition at `pos` and where the input goes on after it: right after the
/// structure, whatever its `ByteLength` says.
pub open spec fn spec_counter_definition(b: Seq<u8>, pos: int) -> Option<(int, PERF_COUNTER_DEFINITION)> {
    if pos + PERF_COUNTER_DEFINITION_SIZE > b.len() {
        None
    } else {
        Some((pos + PERF_COUNTER_DEFINITION_SIZE, spec_read_counter_definition(b, pos)))
    }
}

/// The counter definition at `pos`, and the position after it.
pub fn counter_definition_at(input: &[u8], pos: usize) -> (r: Result<(usize, PerfCounterDefinition), ParseError>)
    requires
        pos <= input@.len(),
    ensures
        match r {
            Ok((end, def)) => spec_counter_definition(input@, pos as int) == Some((end as int, def.raw)),
            Err(_) => spec_counter_definition(input@, pos as int) is None,
        },
{
    if PERF_COUNTER_DEFINITION_SIZE > input.len() - pos {
        return Err(ParseError);
    }
    let raw = PERF_COUNTER_DEFINITION::read(input, pos);
    Ok((pos + PERF_COUNTER_DEFINITION_SIZE, PerfCounterDefinition { raw }))
}

/// The counter definition at the start of `input`, and the number of bytes it takes.
pub fn perf_counter_definition(input: &[u8]) -> (r: Result<(usize, PerfCounterDefinition), ParseError>)
    ensures
        match r {
            Ok((end, def)) => spec_counter_definition(input@, 0) == Some((end as int, def.raw)),
            Err(_) => spec_counter_definition(input@, 0) is None,
        },
{
    counter_definition_at(input, 0)
}

/// An instance definition and its name, without the nul.
#[derive(Clone, Debug)]
pub struct PerfInstanceDefinition {
    pub raw: PERF_INSTANCE_DEFINITION,
    pub name: Vec<u16>,
}

pub struct InstanceView {
    pub raw: PERF_INSTANCE_DEFINITION,
    pub name: Seq<u16>,
}

impl View for PerfInstanceDefinition {
    type V = InstanceView;

    open spec fn view(&self) -> InstanceView {
        InstanceView { raw: self.raw, name: self.name@ }
    }
}

/// The instance definition at `pos` and where the input goes on after it: `ByteLength`
/// bytes from its start. Its name lies at `NameOffset` from its start.
pub open spec fn spec_instance_definition(b: Seq<u8>, pos: int) -> Option<(int, InstanceView)> {
    if pos + PERF_INSTANCE_DEFINITION_SIZE > b.len() {
        None
    } else {
        let raw = spec_read_instance_definition(b, pos);
        match spec_u16cstr(b, pos, raw.NameOffset as int, raw.NameLength as int) {
            None => None,
            Some(name) => if pos + raw.ByteLength > b.len() {
                None
            } else {
                Some((pos + raw.ByteLength, InstanceView { raw, name }))
            },
        }
    }
}

/// The instance definition at `pos`, and the position after it.
pub fn instance_definition_at(input: &[u8], pos: usize) -> (r: Result<(usize, PerfInstanceDefinition), ParseError>)
    requires
        pos <= input@.len(),
    ensures
        match r {
            Ok((end, def)) => spec_instance_definition(input@, pos as int) == Some((end as int, def@)),
            Err(_) => spec_instance_definition(input@, pos as int) is None,
        },
{
    let n = input.len();
    if PERF_INSTANCE_DEFINITION_SIZE > n - pos {
        return Err(ParseError);
    }
    let raw = PERF_INSTANCE_DEFINITION::read(input, pos);
    let name = match u16cstr(input, pos, raw.NameOffset, raw.NameLength) {
        Ok(name) => name,
        Err(e) => return Err(e),
    };
    if raw.ByteLength as usize > n - pos {
        return Err(ParseError);
    }
    Ok((pos + raw.ByteLength as usize, PerfInstanceDefinition { raw, name }))
}

/// The instance definition at the start of `input`, and the number of bytes it takes.
pub fn perf_instance_definition(input: &[u8]) -> (r: Result<(usize, PerfInstanceDefinition), ParseError>)
    ensures
        match r {
            Ok((end, def)) => spec_instance_definition(input@, 0) == Some((end as int, def@)),
            Err(_) => spec_instance_definition(input@, 0) is None,
        },
{
    instance_definition_at(input, 0)
}

/// The data of an object: one counter block, or an instance and its counter block for
/// each instance.
#[derive(Clone, Debug)]
pub enum PerfObjectData {
    Singleton(PerfCounterBlock),
    Instances(Vec<(PerfInstanceDefinition, PerfCounterBlock)>),
}

pub enum ObjectDataView {
    Singleton(CounterBlockView),
    Instances(Seq<(InstanceView, CounterBlockView)>),
}

/// The view of an instance and its counter block.
pub open spec fn pair_view(p: (PerfInstanceDefinition, PerfCounterBlock)) -> (InstanceView, CounterBlockView) {
    (p.0@, p.1@)
}

/// The views of instances and their counter blocks.
pub open spec fn pairs_view(v: Seq<(PerfInstanceDefinition, PerfCounterBlock)>) -> Seq<(InstanceView, CounterBlockView)> {
    v.map_values(|p: (PerfInstanceDefinition, PerfCounterBlock)| pair_view(p))
}

impl View for PerfObjectData {
    type V = ObjectDataView;

    open spec fn view(&self) -> ObjectDataView {
        match self {
            PerfObjectData::Singleton(b) => ObjectDataView::Singleton(b@),
            PerfObjectData::Instances(v) => ObjectDataView::Instances(pairs_view(v@)),
        }
    }
}

impl PerfObjectData {
    /// The counter block of an object without instances.
    pub fn singleton(&self) -> (r: Option<&PerfCounterBlock>)
        ensures
            match self {
                PerfObjectData::Singleton(b) => r == Some(b),
                PerfObjectData::Instances(_) => r is None,
            },
    {
        match self {
            PerfObjectData::Singleton(block) => Some(block),
            PerfObjectData::Instances(..) => None,
        }
    }

    /// The instances of an object with instances, each with its counter block.
    pub fn instances(&self) -> (r: Option<&[(PerfInstanceDefinition, PerfCounterBlock)]>)
        ensures
            match self {
                PerfObjectData::Singleton(_) => r is None,
                PerfObjectData::Instances(v) => r matches Some(s) && s@ == v@,
            },
    {
        match self {
            PerfObjectData::Singleton(..) => None,
            PerfObjectData::Instances(vec) => Some(vec.as_slice()),
        }
    }
}

/// An object: its header, its counter definitions and its data.
#[derive(Clone, Debug)]
pub struct PerfObjectType {
    pub raw: PERF_OBJECT_TYPE,
    pub counters: Vec<PerfCounterDefinition>,
    pub data: PerfObjectData,
}

pub struct ObjectTypeView {
    pub raw: PERF_OBJECT_TYPE,
    pub counters: Seq<PERF_COUNTER_DEFINITION>,
    pub data: ObjectDataView,
}

/// The raw definitions of parsed counter definitions.
pub open spec fn definitions_view(v: Seq<PerfCounterDefinition>) -> Seq<PERF_COUNTER_DEFINITION> {
    v.map_values(|d: PerfCounterDefinition| d.raw)
}

impl View for PerfObjectType {
    type V = ObjectTypeView;

    open spec fn view(&self) -> ObjectTypeView {
        ObjectTypeView { raw: self.raw, counters: definitions_view(self.counters@), data: self.data@ }
    }
}

/// `s` before what `rest` holds, if it holds anything.
pub open spec fn prepend<T>(s: Seq<T>, rest: Option<Seq<T>>) -> Option<Seq<T>> {
    match rest {
        Some(r) => Some(s + r),
        None => None,
    }
}

/// `n` counter definitions one after the other from `pos`.
pub open spec fn spec_counter_definitions(b: Seq<u8>, pos: int, n: nat) -> Option<Seq<PERF_COUNTER_DEFINITION>>
    decreases n,
{
    if n == 0 {
        Some(seq![])
    } else {
        match spec_counter_definition(b, pos) {
            None => None,
            Some((next, d)) => prepend(seq![d], spec_counter_definitions(b, next, (n - 1) as nat)),
        }
    }
}

/// `n` pairs of an instance definition and its counter block, one after the other from
/// `pos`; each pair must take at least one byte.
pub open spec fn spec_instance_pairs(b: Seq<u8>, pos: int, n: nat) -> Option<Seq<(InstanceView, CounterBlockView)>>
    decreases n,
{
    if n == 0 {
        Some(seq![])
    } else {
        match spec_instance_definition(b, pos) {
            None => None,
            Some((p1, inst)) => match spec_counter_block(b, p1) {
                None => None,
                Some((p2, block)) => if p2 == pos {
                    None
                } else {
                    prepend(seq![(inst, block)], spec_instance_pairs(b, p2, (n - 1) as nat))
                },
            },
        }
    }
}

/// The data of an object whose data starts at `pos`: one counter block for
/// `PERF_NO_INSTANCES`, else `num_instances` (as a `usize`) instances with their blocks.
pub open spec fn spec_object_data(b: Seq<u8>, pos: int, num_instances: i32) -> Option<ObjectDataView> {
    if num_instances == PERF_NO_INSTANCES {
        match spec_counter_block(b, pos) {
            Some((_, block)) => Some(ObjectDataView::Singleton(block)),
            None => None,
        }
    } else {
        match spec_instance_pairs(b, pos, (num_instances as usize) as nat) {
            Some(pairs) => Some(ObjectDataView::Instances(pairs)),
            None => None,
        }
    }
}

/// The object at `pos` and where the input goes on after it: `TotalByteLength` bytes from
/// its start. Its counter definitions start at `HeaderLength` from its start, and its data
/// at `DefinitionLength`.
pub open spec fn spec_object_type(b: Seq<u8>, pos: int) -> Option<(int, ObjectTypeView)> {
    if pos + PERF_OBJECT_TYPE_SIZE > b.len() {
        None
    } else {
        let raw = spec_read_object_type(b, pos);
        if pos + raw.HeaderLength > b.len() || pos + raw.DefinitionLength > b.len() || pos
            + raw.TotalByteLength > b.len() {
            None
        } else {
            match (
                spec_counter_definitions(b, pos + raw.HeaderLength, raw.NumCounters as nat),
                spec_object_data(b, pos + raw.DefinitionLength, raw.NumInstances),
            ) {
                (Some(counters), Some(data)) => Some(
                    (pos + raw.TotalByteLength, ObjectTypeView { raw, counters, data }),
                ),
                _ => None,
            }
        }
    }
}

/// `n` counter definitions one after the other from `pos`.
fn counter_definitions_at(input: &[u8], pos: usize, n: u32) -> (r: Result<Vec<PerfCounterDefinition>, ParseError>)
    requires
        pos <= input@.len(),
    ensures
        match r {
            Ok(v) => spec_counter_definitions(input@, pos as int, n as nat) == Some(definitions_view(v@)),
            Err(_) => spec_counter_definitions(input@, pos as int, n as nat) is None,
        },
{
    let mut out: Vec<PerfCounterDefinition> = Vec::new();
    let mut cur: usize = pos;
    let mut i: u32 = 0;
    while i < n
        invariant
            i <= n,
            cur <= input@.len(),
            spec_counter_definitions(input@, pos as int, n as nat) == prepend(
                definitions_view(out@),
                spec_counter_definitions(input@, cur as int, (n - i) as nat),
            ),
        decreases n - i,
    {
        let ghost before = definitions_view(out@);
        match counter_definition_at(input, cur) {
            Ok((next, def)) => {
                proof {
                    let rest = spec_counter_definitions(input@, next as int, (n - i - 1) as nat);
                    assert(spec_counter_definitions(input@, cur as int, (n - i) as nat) == prepend(seq![def.raw], rest));
                    match rest {
                        Some(r) => {
                            assert(before + (seq![def.raw] + r) =~= (before + seq![def.raw]) + r);
                        },
                        None => {},
                    }
                }
                out.push(def);
                proof {
                    assert(definitions_view(out@) =~= before + seq![def.raw]);
                }
                cur = next;
            },
            Err(e) => {
                return Err(e);
            },
        }
        i = i + 1;
    }
    proof {
        assert(definitions_view(out@) + Seq::<PERF_COUNTER_DEFINITION>::empty() =~= definitions_view(out@));
    }
    Ok(out)
}

/// `n` instances with their counter blocks, one after the other from `pos`.
fn instance_pairs_at(input: &[u8], pos: usize, n: usize) -> (r: Result<Vec<(PerfInstanceDefinition, PerfCounterBlock)>, ParseError>)
    requires
        pos <= input@.len(),
    ensures
        match r {
            Ok(v) => spec_instance_pairs(input@, pos as int, n as nat) == Some(pairs_view(v@)),
            Err(_) => spec_instance_pairs(input@, pos as int, n as nat) is None,
        },
{
    let mut out: Vec<(PerfInstanceDefinition, PerfCounterBlock)> = Vec::new();
    let mut cur: usize = pos;
    let mut i: usize = 0;
    while i < n
        invariant
            i <= n,
            cur <= input@.len(),
            spec_instance_pairs(input@, pos as int, n as nat) == prepend(
                pairs_view(out@),
                spec_instance_pairs(input@, cur as int, (n - i) as nat),
            ),
        decreases n - i,
    {
        let ghost before = pairs_view(out@);
        let (p1, inst) = match instance_definition_at(input, cur) {
            Ok(x) => x,
            Err(e) => return Err(e),
        };
        let (p2, block) = match counter_block_at(input, p1) {
            Ok(x) => x,
            Err(e) => return Err(e),
        };
        if p2 == cur {
            return Err(ParseError);
        }
        let ghost item = (inst@, block@);
        proof {
            let rest = spec_instance_pairs(input@, p2 as int, (n - i - 1) as nat);
            assert(spec_instance_pairs(input@, cur as int, (n - i) as nat) == prepend(seq![item], rest));
            match rest {
                Some(r) => {
                    assert(before + (seq![item] + r) =~= (before + seq![item]) + r);
                },
                None => {},
            }
        }
        out.push((inst, block));
        proof {
            assert(pairs_view(out@) =~= before + seq![item]);
        }
        cur = p2;
        i = i + 1;
    }
    proof {
        assert(pairs_view(out@) + Seq::<(InstanceView, CounterBlockView)>::empty() =~= pairs_view(out@));
    }
    Ok(out)
}

/// The object at `pos`, and the position after it.
pub fn object_type_at(input: &[u8], pos: usize) -> (r: Result<(usize, PerfObjectType), ParseError>)
    requires
        pos <= input@.len(),
    ensures
        match r {
            Ok((end, obj)) => spec_object_type(input@, pos as int) == Some((end as int, obj@)),
            Err(_) => spec_object_type(input@, pos as int) is None,
        },
{
    let n = input.len();
    if PERF_OBJECT_TYPE_SIZE > n - pos {
        return Err(ParseError);
    }
    let raw = PERF_OBJECT_TYPE::read(input, pos);
    if raw.HeaderLength as usize > n - pos || raw.DefinitionLength as usize > n - pos
        || raw.TotalByteLength as usize > n - pos {
        return Err(ParseError);
    }
    let counters = match counter_definitions_at(input, pos + raw.HeaderLength as usize, raw.NumCounters) {
        Ok(c) => c,
        Err(e) => return Err(e),
    };
    let data_pos = pos + raw.DefinitionLength as usize;
    let data = if raw.NumInstances == PERF_NO_INSTANCES {
        match counter_block_at(input, data_pos) {
            Ok((_, block)) => PerfObjectData::Singleton(block),
            Err(e) => return Err(e),
        }
    } else {
        match instance_pairs_at(input, data_pos, raw.NumInstances as usize) {
            Ok(pairs) => PerfObjectData::Instances(pairs),
            Err(e) => return Err(e),
        }
    };
    Ok((pos + raw.TotalByteLength as usize, PerfObjectType { raw, counters, data }))
}

/// The object at the start of `input`, and the number of bytes it takes.
pub fn perf_object_type(input: &[u8]) -> (r: Result<(usize, PerfObjectType), ParseError>)
    ensures
        match r {
            Ok((end, obj)) => spec_object_type(input@, 0) == Some((end as int, obj@)),
            Err(_) => spec_object_type(input@, 0) is None,
        },
{
    object_type_at(input, 0)
}

/// The performance data of a system: its header, its name and its objects.
#[derive(Clone, Debug)]
pub struct PerfDataBlock {
    pub raw: PERF_DATA_BLOCK,
    pub system_name: Vec<u16>,
    pub object_types: Vec<PerfObjectType>,
}

pub struct DataBlockView {
    pub raw: PERF_DATA_BLOCK,
    pub system_name: Seq<u16>,
    pub object_types: Seq<ObjectTypeView>,
}

/// The views of parsed objects.
pub open spec fn objects_view(v: Seq<PerfObjectType>) -> Seq<ObjectTypeView> {
    v.map_values(|o: PerfObjectType| o@)
}

impl View for PerfDataBlock {
    type V = DataBlockView;

    open spec fn view(&self) -> DataBlockView {
        DataBlockView {
            raw: self.raw,
            system_name: self.system_name@,
            object_types: objects_view(self.object_types@),
        }
    }
}

/// `n` objects one after the other from `pos`; each must take at least one byte.
pub open spec fn spec_object_types(b: Seq<u8>, pos: int, n: nat) -> Option<Seq<ObjectTypeView>>
    decreases n,
{
    if n == 0 {
        Some(seq![])
    } else {
        match spec_object_type(b, pos) {
            None => None,
            Some((next, obj)) => if next == pos {
                None
            } else {
                prepend(seq![obj], spec_object_types(b, next, (n - 1) as nat))
            },
        }
    }
}

/// The data block at `pos` and where the input goes on after it: `TotalByteLength` bytes
/// from its start. Its name lies at `SystemNameOffset` from its start, and its objects start
/// at `HeaderLength`.
pub open spec fn spec_data_block(b: Seq<u8>, pos: int) -> Option<(int, DataBlockView)> {
    if pos + PERF_DATA_BLOCK_SIZE > b.len() {
        None
    } else {
        let raw = spec_read_data_block(b, pos);
        if pos + raw.HeaderLength > b.len() || pos + raw.TotalByteLength > b.len() {
            None
        } else {
            match (
                spec_u16cstr(b, pos, raw.SystemNameOffset as int, raw.SystemNameLength as int),
                spec_object_types(b, pos + raw.HeaderLength, raw.NumObjectTypes as nat),
            ) {
                (Some(system_name), Some(object_types)) => Some(
                    (pos + raw.TotalByteLength, DataBlockView { raw, system_name, object_types }),
                ),
                _ => None,
            }
        }
    }
}

/// `n` objects one after the other from `pos`.
fn object_types_at(input: &[u8], pos: usize, n: u32) -> (r: Result<Vec<PerfObjectType>, ParseError>)
    requires
        pos <= input@.len(),
    ensures
        match r {
            Ok(v) => spec_object_types(input@, pos as int, n as nat) == Some(objects_view(v@)),
            Err(_) => spec_object_types(input@, pos as int, n as nat) is None,
        },
{
    let mut out: Vec<PerfObjectType> = Vec::new();
    let mut cur: usize = pos;
    let mut i: u32 = 0;
    while i < n
        invariant
            i <= n,
            cur <= input@.len(),
            spec_object_types(input@, pos as int, n as nat) == prepend(
                objects_view(out@),
                spec_object_types(input@, cur as int, (n - i) as nat),
            ),
        decreases n - i,
    {
        let ghost before = objects_view(out@);
        let (next, obj) = match object_type_at(input, cur) {
            Ok(x) => x,
            Err(e) => return Err(e),
        };
        if next == cur {
            return Err(ParseError);
        }
        let ghost item = obj@;
        proof {
            let rest = spec_object_types(input@, next as int, (n - i - 1) as nat);
            assert(spec_object_types(input@, cur as int, (n - i) as nat) == prepend(seq![item], rest));
            match rest {
                Some(r) => {
                    assert(before + (seq![item] + r) =~= (before + seq![item]) + r);
                },
                None => {},
            }
        }
        out.push(obj);
        proof {
            assert(objects_view(out@) =~= before + seq![item]);
        }
        cur = next;
        i = i + 1;
    }
    proof {
        assert(objects_view(out@) + Seq::<ObjectTypeView>::empty() =~= objects_view(out@));
    }
    Ok(out)
}

/// The data block at the start of `input`, and the number of bytes it takes.
pub fn perf_data_block(input: &[u8]) -> (r: Result<(usize, PerfDataBlock), ParseError>)
    ensures
        match r {
            Ok((end, block)) => spec_data_block(input@, 0) == Some((end as int, block@)),
            Err(_) => spec_data_block(input@, 0) is None,
        },
{
    let n = input.len();
    if PERF_DATA_BLOCK_SIZE > n {
        return Err(ParseError);
    }
    let raw = PERF_DATA_BLOCK::read(input, 0);
    if raw.HeaderLength as usize > n || raw.TotalByteLength as usize > n {
        return Err(ParseError);
    }
    let system_name = match u16cstr(input, 0, raw.SystemNameOffset, raw.SystemNameLength) {
        Ok(s) => s,
        Err(e) => return Err(e),
    };
    let object_types = match object_types_at(input, raw.HeaderLength as usize, raw.NumObjectTypes) {
        Ok(v) => v,
        Err(e) => return Err(e),
    };
    Ok((raw.TotalByteLength as usize, PerfDataBlock { raw, system_name, object_types }))
}

impl InstanceId {
    /// The identity of a parsed instance.
    pub fn from_definition(def: &PerfInstanceDefinition) -> (r: Self)
        ensures
            r.id_raw() == def.raw.UniqueID,
            r.name_view() == def.name@,
    {
        InstanceId::new(def.raw.UniqueID, def.name.as_slice())
    }
}

} // verus!
