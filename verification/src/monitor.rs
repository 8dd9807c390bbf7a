//! What a monitor of Morse counters keeps of them: the recent history of each counter and
//! of each of its instances, the characters decoded so far, and which counter is shown.
use std::collections::VecDeque;
use vstd::prelude::*;
use crate::perf::consume::{parse_decimal, parse_unsigned, push_char, CounterMeta, MetaView};
use crate::perf::nom::{PerfCounterBlock, PerfCounterDefinition, PerfObjectData, PerfObjectType};
use crate::perf::types::{definition_valid, size_from_raw, CounterTypeDefinition, Size};
use crate::perf::useful::{
    instance_order, lemma_instance_order_total, utf16_lossy, utf16_to_string, InstanceId, InstanceKey,
    PERF_NO_UNIQUE_ID,
};
use crate::perf::values::{spec_value, value_read_stops, CounterValue, CounterValueView, ValueError};

verus! {

/// How many values of each history are kept.
pub const HIST_SIZE: usize = 200;

/// The last `HIST_SIZE - 1` values of a history, before one more is added.
pub open spec fn trimmed<T>(s: Seq<T>) -> Seq<T> {
    if s.len() >= HIST_SIZE {
        s.skip(s.len() - (HIST_SIZE - 1))
    } else {
        s
    }
}

/// Drop the oldest values until there is room for one more.
fn trim<T>(v: &mut VecDeque<T>)
    ensures
        final(v)@ == trimmed(old(v)@),
{
    while v.len() >= HIST_SIZE
        invariant
            old(v)@.len() >= HIST_SIZE ==> v@ == old(v)@.skip(old(v)@.len() - v@.len()) && v@.len() >= HIST_SIZE - 1,
            old(v)@.len() < HIST_SIZE ==> v@ == old(v)@,
            v@.len() <= old(v)@.len(),
        decreases v@.len(),
    {
        let ghost before = v@;
        v.pop_front();
        proof {
            assert(v@ =~= before.drop_first());
            if old(v)@.len() >= HIST_SIZE {
                let a = old(v)@.len() - before.len();
                assert(before == old(v)@.skip(a));
                assert(before.len() >= HIST_SIZE);
                assert(0 <= a < old(v)@.len());
                assert(v@.len() == before.len() - 1);
                assert(old(v)@.skip(a + 1) =~= old(v)@.skip(a).drop_first());
                assert(old(v)@.len() - v@.len() == a + 1);
            }
        }
    }
}

/// The history of one instance of a counter: its identity, its name, and its last values.
#[derive(Debug)]
pub struct InstanceStats {
    pub instance_id: InstanceId,
    pub name: String,
    pub signal: VecDeque<u32>,
}

impl InstanceStats {
    /// An instance with an empty history; its name is the identity's name, with unpaired
    /// surrogates replaced.
    pub fn new(instance_id: InstanceId) -> (r: Self)
        ensures
            r.instance_id == instance_id,
            r.name@ == utf16_lossy(instance_id.name_view()),
            r.signal@ == Seq::<u32>::empty(),
    {
        let name = utf16_to_string(instance_id.name());
        InstanceStats { name, instance_id, signal: VecDeque::new() }
    }

    /// Add the newest value, dropping the oldest ones beyond `HIST_SIZE`.
    pub fn push_signal(&mut self, signal: u32)
        ensures
            final(self).signal@ == trimmed(old(self).signal@).push(signal),
            final(self).instance_id == old(self).instance_id,
            final(self).name == old(self).name,
    {
        trim(&mut self.signal);
        self.signal.push_back(signal);
    }
}

/// The history of a counter: its description, the characters decoded from it, its last
/// signals and its instances.
#[derive(Debug)]
pub struct CounterStats {
    pub meta: CounterMeta,
    pub decoded: VecDeque<char>,
    pub signal: VecDeque<bool>,
    pub instances: Vec<InstanceStats>,
}

impl CounterStats {
    /// A counter with empty histories and no instances.
    pub fn new(meta: CounterMeta) -> (r: Self)
        ensures
            r.meta@ == meta@,
            r.decoded@ == Seq::<char>::empty(),
            r.signal@ == Seq::<bool>::empty(),
            r.instances@ == Seq::<InstanceStats>::empty(),
    {
        CounterStats { meta, decoded: VecDeque::new(), signal: VecDeque::new(), instances: Vec::new() }
    }

    /// Add a decoded character, dropping the oldest ones beyond `HIST_SIZE`.
    pub fn push_char(&mut self, char: char)
        ensures
            final(self).decoded@ == trimmed(old(self).decoded@).push(char),
            final(self).signal@ == old(self).signal@,
    {
        trim(&mut self.decoded);
        self.decoded.push_back(char);
    }

    /// Add a signal, dropping the oldest ones beyond `HIST_SIZE`.
    pub fn push_signal(&mut self, signal: bool)
        ensures
            final(self).signal@ == trimmed(old(self).signal@).push(signal),
            final(self).decoded@ == old(self).decoded@,
    {
        trim(&mut self.signal);
        self.signal.push_back(signal);
    }

    /// The index of the instance of this identity. A new instance is first put before the
    /// first instance whose identity comes after its own, and then the index of the last
    /// instance is given.
    pub fn instance_index(&mut self, instance_id: &InstanceId) -> (r: usize)
        ensures
            r < final(self).instances@.len(),
            final(self).meta@ == old(self).meta@,
            final(self).decoded@ == old(self).decoded@,
            final(self).signal@ == old(self).signal@,
            match first_instance_with(old(self).instances@, instance_id.key()) {
                Some(i) => r == i && final(self).instances@ == old(self).instances@,
                None => {
                    let k = insertion_point(old(self).instances@, *instance_id);
                    &&& r == old(self).instances@.len()
                    &&& final(self).instances@.len() == old(self).instances@.len() + 1
                    &&& final(self).instances@.take(k) == old(self).instances@.take(k)
                    &&& final(self).instances@.skip(k + 1) == old(self).instances@.skip(k)
                    &&& final(self).instances@[k].instance_id.key() == instance_id.key()
                    &&& final(self).instances@[k].signal@ == Seq::<u32>::empty()
                },
            },
    {
        let n = self.instances.len();
        let mut i: usize = 0;
        while i < n
            invariant
                n == self.instances@.len(),
                i <= n,
                first_instance_with(self.instances@, instance_id.key()) == first_instance_with_from(
                    self.instances@,
                    instance_id.key(),
                    i as int,
                ),
            decreases n - i,
        {
            if self.instances[i].instance_id.same_as(instance_id) {
                return i;
            }
            i = i + 1;
        }
        let k = insertion_index(self.instances.as_slice(), instance_id);
        proof {
            assert(first_instance_with(self.instances@, instance_id.key()) is None);
        }
        let copy = instance_id.duplicate();
        let stats = InstanceStats::new(copy);
        let ghost before = self.instances@;
        self.instances.insert(k, stats);
        proof {
            assert(self.instances@.take(k as int) =~= before.take(k as int));
            assert(self.instances@.skip(k + 1) =~= before.skip(k as int));
        }
        n
    }
}

/// The index of the first instance of this identity from `i` on.
pub open spec fn first_instance_with_from(s: Seq<InstanceStats>, key: crate::perf::useful::InstanceKey, i: int) -> Option<int>
    decreases s.len() - i,
{
    if i < 0 || i >= s.len() {
        None
    } else if s[i].instance_id.key() == key {
        Some(i)
    } else {
        first_instance_with_from(s, key, i + 1)
    }
}

/// The index of the first instance of this identity.
pub open spec fn first_instance_with(s: Seq<InstanceStats>, key: crate::perf::useful::InstanceKey) -> Option<int> {
    first_instance_with_from(s, key, 0)
}

/// Whether identity `a` comes before identity `b`.
pub open spec fn comes_before(a: InstanceId, b: InstanceId) -> bool {
    instance_order(a, b) == std::cmp::Ordering::Less
}

/// Whether identity `a` comes before identity `b`.
fn instance_comes_before(a: &InstanceId, b: &InstanceId) -> (r: bool)
    ensures
        r == comes_before(*a, *b),
{
    matches!(a.cmp(b), std::cmp::Ordering::Less)
}

/// Where a new instance goes, from `i` on: before the first instance whose identity comes
/// after its own.
pub open spec fn insertion_point_from(s: Seq<InstanceStats>, id: InstanceId, i: int) -> int
    decreases s.len() - i,
{
    if i < 0 || i >= s.len() {
        s.len() as int
    } else if comes_before(id, s[i].instance_id) {
        i
    } else {
        insertion_point_from(s, id, i + 1)
    }
}

/// Where a new instance goes: before the first instance whose identity comes after its own.
pub open spec fn insertion_point(s: Seq<InstanceStats>, id: InstanceId) -> int {
    insertion_point_from(s, id, 0)
}

/// Where a new instance goes among sorted instances.
fn insertion_index(s: &[InstanceStats], id: &InstanceId) -> (r: usize)
    ensures
        r == insertion_point(s@, *id),
        r <= s@.len(),
{
    let n = s.len();
    let mut k: usize = 0;
    while k < n
        invariant
            n == s@.len(),
            k <= n,
            insertion_point(s@, *id) == insertion_point_from(s@, *id, k as int),
        decreases n - k,
    {
        if instance_comes_before(id, &s[k].instance_id) {
            return k;
        }
        k = k + 1;
    }
    k
}

/// The history of an object: its description and its counters, in increasing order of
/// name index.
#[derive(Debug)]
pub struct ObjectStats {
    pub meta: CounterMeta,
    pub counters: Vec<CounterStats>,
}

/// The index of the first counter of this name index from `i` on.
pub open spec fn first_counter_with_from(s: Seq<CounterStats>, name_index: usize, i: int) -> Option<int>
    decreases s.len() - i,
{
    if i < 0 || i >= s.len() {
        None
    } else if s[i].meta.name_index == name_index {
        Some(i)
    } else {
        first_counter_with_from(s, name_index, i + 1)
    }
}

/// Where a new counter goes, from `i` on: before the first counter of a larger name index.
pub open spec fn counter_insertion_from(s: Seq<CounterStats>, name_index: usize, i: int) -> int
    decreases s.len() - i,
{
    if i < 0 || i >= s.len() {
        s.len() as int
    } else if name_index < s[i].meta.name_index {
        i
    } else {
        counter_insertion_from(s, name_index, i + 1)
    }
}

/// Where a new counter goes among counters sorted by name index.
fn counter_insertion_index(s: &[CounterStats], name_index: usize) -> (r: usize)
    ensures
        r == counter_insertion_from(s@, name_index, 0),
        r <= s@.len(),
{
    let n = s.len();
    let mut k: usize = 0;
    while k < n
        invariant
            n == s@.len(),
            k <= n,
            counter_insertion_from(s@, name_index, 0) == counter_insertion_from(s@, name_index, k as int),
        decreases n - k,
    {
        if name_index < s[k].meta.name_index {
            return k;
        }
        k = k + 1;
    }
    k
}

impl ObjectStats {
    /// An object without counters.
    pub fn new(meta: CounterMeta) -> (r: Self)
        ensures
            r.meta@ == meta@,
            r.counters@ == Seq::<CounterStats>::empty(),
    {
        ObjectStats { meta, counters: Vec::new() }
    }

    /// The index of the counter of this description's name index. A new counter is first
    /// put before the first counter of a larger name index, and then the index of the last
    /// counter is given.
    pub fn counter_index(&mut self, meta: &CounterMeta) -> (r: usize)
        ensures
            r < final(self).counters@.len(),
            final(self).meta@ == old(self).meta@,
            match first_counter_with_from(old(self).counters@, meta.name_index, 0) {
                Some(i) => r == i && final(self).counters@ == old(self).counters@,
                None => {
                    let k = counter_insertion_from(old(self).counters@, meta.name_index, 0);
                    &&& r == old(self).counters@.len()
                    &&& final(self).counters@.len() == old(self).counters@.len() + 1
                    &&& final(self).counters@.take(k) == old(self).counters@.take(k)
                    &&& final(self).counters@.skip(k + 1) == old(self).counters@.skip(k)
                    &&& final(self).counters@[k].meta@ == meta@
                    &&& final(self).counters@[k].instances@ == Seq::<InstanceStats>::empty()
                },
            },
    {
        let n = self.counters.len();
        let mut i: usize = 0;
        while i < n
            invariant
                n == self.counters@.len(),
                i <= n,
                first_counter_with_from(self.counters@, meta.name_index, 0) == first_counter_with_from(
                    self.counters@,
                    meta.name_index,
                    i as int,
                ),
            decreases n - i,
        {
            if self.counters[i].meta.name_index == meta.name_index {
                return i;
            }
            i = i + 1;
        }
        let k = counter_insertion_index(self.counters.as_slice(), meta.name_index);
        let stats = CounterStats::new(meta.duplicate());
        let ghost before = self.counters@;
        self.counters.insert(k, stats);
        proof {
            assert(self.counters@.take(k as int) =~= before.take(k as int));
            assert(self.counters@.skip(k + 1) =~= before.skip(k as int));
        }
        n
    }
}

/// A value of a counter for an instance.
#[derive(Debug)]
pub struct DataPair(pub InstanceId, pub u32);

/// Whether the value of the counter in the block is a double word.
pub open spec fn reads_dword(def: PerfCounterDefinition, block: PerfCounterBlock) -> bool {
    &&& definition_valid(def.raw.CounterType)
    &&& !value_read_stops(def.raw, block.bytes@)
    &&& spec_value(def.raw, block.bytes@) matches Ok(CounterValueView::Dword(_))
}

/// The double word value of the counter in the block.
pub open spec fn block_dword(def: PerfCounterDefinition, block: PerfCounterBlock) -> u32 {
    match spec_value(def.raw, block.bytes@) {
        Ok(CounterValueView::Dword(d)) => d,
        _ => 0,
    }
}

/// The counter blocks of an object's data.
pub open spec fn data_blocks(data: PerfObjectData) -> Seq<PerfCounterBlock> {
    match data {
        PerfObjectData::Singleton(b) => seq![b],
        PerfObjectData::Instances(v) => v@.map_values(|p: (crate::perf::nom::PerfInstanceDefinition, PerfCounterBlock)| p.1),
    }
}

fn get_as_dword_inner(counter: &PerfCounterDefinition, block: &PerfCounterBlock) -> (r: u32)
    requires
        reads_dword(*counter, *block),
    ensures
        r == block_dword(*counter, *block),
{
    match CounterValue::try_get(counter, block) {
        Ok(CounterValue::Dword(d)) => d,
        _ => 0,
    }
}

/// The double word values of the counter for each instance of the object, or for the
/// object without instances.
pub fn get_as_dword(object: &PerfObjectType, counter: &PerfCounterDefinition) -> (r: Vec<DataPair>)
    requires
        forall|i: int| 0 <= i < data_blocks(object.data).len() ==> reads_dword(*counter, #[trigger] data_blocks(object.data)[i]),
    ensures
        r@.len() == data_blocks(object.data).len(),
        forall|i: int| 0 <= i < r@.len() ==> (#[trigger] r@[i]).1 == block_dword(*counter, data_blocks(object.data)[i]),
        object.data is Singleton ==> r@[0].0.id_raw() == PERF_NO_UNIQUE_ID && r@[0].0.name_view() == Seq::<u16>::empty(),
        object.data matches PerfObjectData::Instances(v) ==> forall|i: int| 0 <= i < r@.len() ==> (#[trigger] r@[i]).0.id_raw() == v@[i].0.raw.UniqueID && r@[i].0.name_view() == v@[i].0.name@,
{
    match &object.data {
        PerfObjectData::Singleton(block) => {
            proof {
                assert(data_blocks(object.data)[0] == *block);
            }
            let d = get_as_dword_inner(counter, block);
            let mut out: Vec<DataPair> = Vec::new();
            out.push(DataPair(InstanceId::perf_no_instances(), d));
            out
        },
        PerfObjectData::Instances(vec) => {
            let mut out: Vec<DataPair> = Vec::new();
            let mut i: usize = 0;
            while i < vec.len()
                invariant
                    i <= vec@.len(),
                    object.data == PerfObjectData::Instances(*vec),
                    data_blocks(object.data).len() == vec@.len(),
                    forall|j: int| 0 <= j < data_blocks(object.data).len() ==> reads_dword(*counter, #[trigger] data_blocks(object.data)[j]),
                    out@.len() == i,
                    forall|j: int| 0 <= j < i ==> (#[trigger] out@[j]).1 == block_dword(*counter, data_blocks(object.data)[j]),
                    forall|j: int| 0 <= j < i ==> (#[trigger] out@[j]).0.id_raw() == vec@[j].0.raw.UniqueID && out@[j].0.name_view() == vec@[j].0.name@,
                decreases vec.len() - i,
            {
                let (instance, block) = &vec[i];
                proof {
                    assert(data_blocks(object.data)[i as int] == *block);
                }
                let d = get_as_dword_inner(counter, block);
                out.push(DataPair(InstanceId::from_definition(instance), d));
                i = i + 1;
            }
            out
        },
    }
}

/// Whether every counter block of the data holds a double word value of the counter.
fn all_read_dword(data: &PerfObjectData, counter: &PerfCounterDefinition) -> (r: bool)
    ensures
        r == forall|i: int| 0 <= i < data_blocks(*data).len() ==> reads_dword(*counter, #[trigger] data_blocks(*data)[i]),
{
    let has_blocks = match data {
        PerfObjectData::Singleton(_) => true,
        PerfObjectData::Instances(vec) => vec.len() > 0,
    };
    if !has_blocks {
        return true;
    }
    if CounterTypeDefinition::from_raw(counter.raw.CounterType).is_none() || !matches!(
        Size::from_raw(counter.raw.CounterType),
        Size::Dword
    ) {
        proof {
            assert(!reads_dword(*counter, data_blocks(*data)[0]));
        }
        return false;
    }
    match data {
        PerfObjectData::Singleton(block) => {
            proof {
                assert(data_blocks(*data)[0] == *block);
            }
            matches!(CounterValue::try_get(counter, block), Ok(CounterValue::Dword(_)))
        },
        PerfObjectData::Instances(vec) => {
            let mut i: usize = 0;
            while i < vec.len()
                invariant
                    i <= vec@.len(),
                    *data == PerfObjectData::Instances(*vec),
                    data_blocks(*data).len() == vec@.len(),
                    definition_valid(counter.raw.CounterType),
                    size_from_raw(counter.raw.CounterType) == Size::Dword,
                    forall|j: int| 0 <= j < i ==> reads_dword(*counter, #[trigger] data_blocks(*data)[j]),
                decreases vec.len() - i,
            {
                let (_, block) = &vec[i];
                proof {
                    assert(data_blocks(*data)[i as int] == *block);
                }
                if !matches!(CounterValue::try_get(counter, block), Ok(CounterValue::Dword(_))) {
                    return false;
                }
                i = i + 1;
            }
            true
        },
    }
}

/// The double word values of the counter, as `get_as_dword` gives them, when every
/// counter block holds one; `None` otherwise.
pub fn try_get_as_dword(object: &PerfObjectType, counter: &PerfCounterDefinition) -> (r: Option<Vec<DataPair>>)
    ensures
        r is Some <==> forall|i: int| 0 <= i < data_blocks(object.data).len() ==> reads_dword(*counter, #[trigger] data_blocks(object.data)[i]),
        r matches Some(v) ==> v@.len() == data_blocks(object.data).len(),
        r matches Some(v) ==> forall|i: int| 0 <= i < v@.len() ==> (#[trigger] v@[i]).1 == block_dword(*counter, data_blocks(object.data)[i]),
        r matches Some(v) ==> (object.data is Singleton ==> v@[0].0.id_raw() == PERF_NO_UNIQUE_ID && v@[0].0.name_view() == Seq::<u16>::empty()),
        r matches Some(v) ==> (object.data matches PerfObjectData::Instances(inst) ==> forall|i: int| 0 <= i < v@.len() ==> (#[trigger] v@[i]).0.id_raw() == inst@[i].0.raw.UniqueID && v@[i].0.name_view() == inst@[i].0.name@),
{
    if all_read_dword(&object.data, counter) {
        Some(get_as_dword(object, counter))
    } else {
        None
    }
}

/// Whether a pair belongs to the instance of identity key `k`.
pub open spec fn has_key(k: InstanceKey) -> spec_fn(DataPair) -> bool {
    |p: DataPair| p.0.key() == k
}

/// Whether the pairs are in the order of their instances.
pub open spec fn in_instance_order(s: Seq<DataPair>) -> bool {
    forall|i: int, j: int| 0 <= i < j < s.len() ==> !comes_before(#[trigger] s[j].0, #[trigger] s[i].0)
}

/// Where a pair goes among pairs in instance order, from `j` on: before the first pair
/// whose instance comes after its own.
fn pair_insertion_index(out: &Vec<DataPair>, id: &InstanceId) -> (r: usize)
    ensures
        r <= out@.len(),
        forall|j: int| 0 <= j < r ==> !comes_before(*id, #[trigger] out@[j].0),
        r < out@.len() ==> comes_before(*id, out@[r as int].0),
{
    let mut j: usize = 0;
    while j < out.len()
        invariant
            j <= out@.len(),
            forall|i: int| 0 <= i < j ==> !comes_before(*id, #[trigger] out@[i].0),
        decreases out.len() - j,
    {
        if instance_comes_before(id, &out[j].0) {
            return j;
        }
        j = j + 1;
    }
    j
}

/// Putting a pair where `pair_insertion_index` says keeps the pairs in instance order, and
/// the pairs of each instance in their order with the new one last.
proof fn lemma_insert_pair(out: Seq<DataPair>, x: DataPair, p: int)
    requires
        in_instance_order(out),
        0 <= p <= out.len(),
        forall|j: int| 0 <= j < p ==> !comes_before(x.0, #[trigger] out[j].0),
        p < out.len() ==> comes_before(x.0, out[p].0),
    ensures
        in_instance_order(out.insert(p, x)),
        forall|k: InstanceKey| #[trigger] out.insert(p, x).filter(has_key(k)) == if x.0.key() == k {
            out.filter(has_key(k)).push(x)
        } else {
            out.filter(has_key(k))
        },
{
    let ins = out.insert(p, x);
    let (front, back) = (out.take(p), out.skip(p));
    assert(out =~= front + back);
    assert(ins =~= front + seq![x] + back);
    assert forall|j: int| 0 <= j < back.len() implies comes_before(x.0, #[trigger] back[j].0) by {
        assert(back[j] == out[p + j]);
        assert(p < out.len());
        assert(comes_before(x.0, out[p].0));
        if j > 0 {
            let (a, b) = (out[p].0, out[p + j].0);
            assert(!comes_before(b, a));
            lemma_instance_order_total(b, a, x.0);
            lemma_instance_order_total(x.0, a, b);
            assert(comes_before(x.0, b));
        }
    }
    assert forall|i: int, j: int| 0 <= i < j < ins.len() implies !comes_before(#[trigger] ins[j].0, #[trigger] ins[i].0) by {
        if i < p && j == p {
            assert(!comes_before(x.0, out[i].0));
        } else if i == p && j > p {
            assert(comes_before(x.0, back[j - p - 1].0));
            lemma_instance_order_total(x.0, ins[j].0, x.0);
        } else if i < p && j > p {
            assert(ins[i] == out[i] && ins[j] == out[j - 1]);
        } else if i > p {
            assert(ins[i] == out[i - 1] && ins[j] == out[j - 1]);
        } else {
            assert(ins[i] == out[i] && ins[j] == out[j]);
        }
    }
    assert forall|k: InstanceKey| #[trigger] ins.filter(has_key(k)) == if x.0.key() == k {
        out.filter(has_key(k)).push(x)
    } else {
        out.filter(has_key(k))
    } by {
        let f = has_key(k);
        Seq::filter_distributes_over_add(front, back, f);
        Seq::filter_distributes_over_add(front + seq![x], back, f);
        Seq::filter_distributes_over_add(front, seq![x], f);
        seq![x].lemma_filter_push(x, f);
        Seq::<DataPair>::empty().lemma_filter_push(x, f);
        assert(Seq::<DataPair>::empty().push(x) =~= seq![x]);
        reveal(Seq::filter);
        assert(Seq::<DataPair>::empty().filter(f) =~= Seq::<DataPair>::empty());
        if x.0.key() == k {
            assert forall|j: int| 0 <= j < back.len() implies !f(back[j]) by {
                assert(comes_before(x.0, back[j].0));
                lemma_instance_order_total(x.0, back[j].0, x.0);
            }
            back.lemma_all_neg_filter_empty(f);
            assert(back.filter(f) =~= Seq::<DataPair>::empty());
            assert(ins.filter(f) =~= front.filter(f).push(x));
            assert(out.filter(f) =~= front.filter(f));
        } else {
            assert(ins.filter(f) =~= front.filter(f) + back.filter(f));
        }
    }
}

/// The pairs in the order of their instances, as a stable sort puts them: pairs of
/// instances with the same identity keep their order.
pub fn sort_by_instance(pairs: Vec<DataPair>) -> (r: Vec<DataPair>)
    ensures
        in_instance_order(r@),
        forall|k: InstanceKey| #[trigger] r@.filter(has_key(k)) == pairs@.filter(has_key(k)),
{
    let ghost orig = pairs@;
    let mut input = pairs;
    let mut out: Vec<DataPair> = Vec::new();
    let ghost mut done: int = 0;
    proof {
        assert(orig.take(0) =~= Seq::<DataPair>::empty());
        assert forall|k: InstanceKey| #[trigger] out@.filter(has_key(k)) == orig.take(0).filter(has_key(k)) by {
            reveal(Seq::filter);
        }
        assert(input@ =~= orig.skip(0));
    }
    while input.len() > 0
        invariant
            0 <= done <= orig.len(),
            input@ == orig.skip(done),
            in_instance_order(out@),
            forall|k: InstanceKey| #[trigger] out@.filter(has_key(k)) == orig.take(done).filter(has_key(k)),
        decreases input.len(),
    {
        let x = input.remove(0);
        let p = pair_insertion_index(&out, &x.0);
        let ghost before = out@;
        proof {
            assert(x == orig[done]);
            lemma_insert_pair(before, x, p as int);
            assert(orig.take(done + 1) =~= orig.take(done).push(x));
            assert forall|k: InstanceKey| #[trigger] orig.take(done + 1).filter(has_key(k)) == if x.0.key() == k {
                orig.take(done).filter(has_key(k)).push(x)
            } else {
                orig.take(done).filter(has_key(k))
            } by {
                orig.take(done).lemma_filter_push(x, has_key(k));
            }
        }
        out.insert(p, x);
        proof {
            done = done + 1;
            assert(input@ =~= orig.skip(done));
        }
    }
    proof {
        assert(orig.take(done) =~= orig);
    }
    out
}

/// A character of a drawn signal.
pub open spec fn mark(run: nat) -> Seq<char> {
    if run == 0 {
        seq![]
    } else if run == 1 {
        seq!['•']
    } else {
        Seq::new(run, |i: int| '─')
    }
}

/// A signal drawn from `s` on, after `run` ON values: a run of ON values is a dot when
/// alone and dashes otherwise; each OFF value is a space, the one after a run included.
pub open spec fn pretty_from(s: Seq<bool>, run: nat) -> Seq<char>
    decreases s.len(),
{
    if s.len() == 0 {
        mark(run)
    } else if s[0] {
        pretty_from(s.drop_first(), run + 1)
    } else {
        mark(run) + seq![' '] + pretty_from(s.drop_first(), 0)
    }
}

/// A drawn run is as long as the run, with no space in it.
proof fn lemma_mark_shape(run: nat)
    ensures
        mark(run).len() == run,
        forall|i: int| 0 <= i < run ==> #[trigger] mark(run)[i] != ' ',
{
}

/// Law: a drawn signal has one character per value after the run in progress, and a
/// character is a space exactly where the signal is OFF; the run in progress is drawn
/// without spaces.
pub proof fn lemma_pretty_shape(s: Seq<bool>, run: nat)
    ensures
        pretty_from(s, run).len() == run + s.len(),
        forall|i: int| 0 <= i < run ==> #[trigger] pretty_from(s, run)[i] != ' ',
        forall|i: int| 0 <= i < s.len() ==> (#[trigger] pretty_from(s, run)[run + i] == ' ') == !s[i],
    decreases s.len(),
{
    lemma_mark_shape(run);
    if s.len() > 0 {
        let rest = s.drop_first();
        if s[0] {
            lemma_pretty_shape(rest, run + 1);
            assert forall|i: int| 0 <= i < s.len() implies (#[trigger] pretty_from(s, run)[run + i] == ' ') == !s[i] by {
                if i > 0 {
                    assert(rest[i - 1] == s[i]);
                    assert(pretty_from(rest, run + 1)[(run + 1) + (i - 1)] == pretty_from(s, run)[run + i]);
                }
            }
        } else {
            lemma_pretty_shape(rest, 0);
            let out = mark(run) + seq![' '] + pretty_from(rest, 0);
            assert(pretty_from(s, run) == out);
            assert forall|i: int| 0 <= i < run implies #[trigger] pretty_from(s, run)[i] != ' ' by {
                assert(out[i] == mark(run)[i]);
            }
            assert forall|i: int| 0 <= i < s.len() implies (#[trigger] pretty_from(s, run)[run + i] == ' ') == !s[i] by {
                if i > 0 {
                    assert(rest[i - 1] == s[i]);
                    assert(out[run + i] == pretty_from(rest, 0)[0 + (i - 1)]);
                } else {
                    assert(out[run as int] == ' ');
                }
            }
        }
    }
}

/// The character that draws each value of a run of `n` ON values: a dot for a lone value,
/// a dash otherwise.
pub open spec fn run_char(n: nat) -> char {
    if n == 1 {
        '•'
    } else {
        '─'
    }
}

/// The `m` ON values at the start of `s`, up to an OFF value or the end, are drawn with
/// the run in progress as one run.
proof fn lemma_pretty_lead(s: Seq<bool>, run: nat, m: int)
    requires
        0 <= m <= s.len(),
        forall|j: int| 0 <= j < m ==> #[trigger] s[j],
        m == s.len() || !s[m],
    ensures
        forall|j: int| 0 <= j < run + m ==> #[trigger] pretty_from(s, run)[j] == run_char((run + m) as nat),
    decreases s.len(),
{
    if s.len() == 0 {
        assert forall|j: int| 0 <= j < run + m implies #[trigger] pretty_from(s, run)[j] == run_char((run + m) as nat) by {
            assert(mark(run)[j] == run_char(run));
        }
    } else if s[0] {
        let rest = s.drop_first();
        assert forall|j: int| 0 <= j < m - 1 implies #[trigger] rest[j] by {
            assert(rest[j] == s[j + 1]);
        }
        if m - 1 < rest.len() {
            assert(rest[m - 1] == s[m]);
        }
        lemma_pretty_lead(rest, run + 1, m - 1);
        assert(pretty_from(s, run) == pretty_from(rest, run + 1));
        assert forall|j: int| 0 <= j < run + m implies #[trigger] pretty_from(s, run)[j] == run_char((run + m) as nat) by {
            assert(pretty_from(rest, run + 1)[j] == run_char(((run + 1) + (m - 1)) as nat));
        }
    } else {
        let rest = s.drop_first();
        assert(m == 0);
        let out = mark(run) + seq![' '] + pretty_from(rest, 0);
        assert(pretty_from(s, run) == out);
        lemma_pretty_shape(rest, 0);
        lemma_mark_shape(run);
        assert forall|j: int| 0 <= j < run + m implies #[trigger] pretty_from(s, run)[j] == run_char((run + m) as nat) by {
            assert(out[j] == mark(run)[j]);
            assert(mark(run)[j] == run_char(run));
        }
    }
}

/// A run of `k` ON values from `i` on, after an OFF value and up to an OFF value or the
/// end, is drawn at its own place as one run.
proof fn lemma_pretty_run(s: Seq<bool>, run: nat, i: int, k: int)
    requires
        0 < i,
        0 < k,
        i + k <= s.len(),
        !s[i - 1],
        forall|j: int| i <= j < i + k ==> #[trigger] s[j],
        i + k == s.len() || !s[i + k],
    ensures
        forall|j: int| i <= j < i + k ==> #[trigger] pretty_from(s, run)[run + j] == run_char(k as nat),
    decreases s.len(),
{
    let rest = s.drop_first();
    assert forall|j: int| i - 1 <= j < i - 1 + k implies #[trigger] rest[j] by {
        assert(rest[j] == s[j + 1]);
    }
    if i + k < s.len() {
        assert(rest[i - 1 + k] == s[i + k]);
    }
    if s[0] {
        assert(i > 1);
        assert(rest[i - 2] == s[i - 1]);
        lemma_pretty_run(rest, run + 1, i - 1, k);
        assert forall|j: int| i <= j < i + k implies #[trigger] pretty_from(s, run)[run + j] == run_char(k as nat) by {
            assert(pretty_from(rest, run + 1)[(run + 1) + (j - 1)] == run_char(k as nat));
        }
    } else {
        let out = mark(run) + seq![' '] + pretty_from(rest, 0);
        assert(pretty_from(s, run) == out);
        lemma_mark_shape(run);
        lemma_pretty_shape(rest, 0);
        if i == 1 {
            lemma_pretty_lead(rest, 0, k);
        } else {
            assert(rest[i - 2] == s[i - 1]);
            lemma_pretty_run(rest, 0, i - 1, k);
        }
        assert forall|j: int| i <= j < i + k implies #[trigger] pretty_from(s, run)[run + j] == run_char(k as nat) by {
            assert(out[run + j] == pretty_from(rest, 0)[j - 1]);
            assert(pretty_from(rest, 0)[0 + (j - 1)] == run_char(k as nat));
        }
    }
}

/// Law: in a drawn signal, each maximal run of ON values is drawn at its own place, as a
/// dot when it is a single value and as one dash per value otherwise.
pub proof fn lemma_pretty_runs(s: Seq<bool>, i: int, k: int)
    requires
        0 <= i,
        0 < k,
        i + k <= s.len(),
        i == 0 || !s[i - 1],
        forall|j: int| i <= j < i + k ==> #[trigger] s[j],
        i + k == s.len() || !s[i + k],
    ensures
        forall|j: int| i <= j < i + k ==> #[trigger] pretty_from(s, 0)[j] == run_char(k as nat),
{
    if i == 0 {
        assert forall|j: int| 0 <= j < k implies #[trigger] s[j] by {
            assert(s[0 + j] == s[j]);
        }
        lemma_pretty_lead(s, 0, k);
    } else {
        lemma_pretty_run(s, 0, i, k);
        assert forall|j: int| i <= j < i + k implies #[trigger] pretty_from(s, 0)[j] == run_char(k as nat) by {
            assert(pretty_from(s, 0)[0 + j] == run_char(k as nat));
        }
    }
}

/// Append the mark of a run.
fn push_mark(s: &mut String, run: usize)
    ensures
        final(s)@ == old(s)@ + mark(run as nat),
{
    if run == 1 {
        s.append("•");
        proof {
            reveal_strlit("•");
        }
    } else if run > 1 {
        let mut i: usize = 0;
        while i < run
            invariant
                i <= run,
                run > 1,
                s@ == old(s)@ + Seq::new(i as nat, |j: int| '─'),
            decreases run - i,
        {
            let ghost before = s@;
            s.append("─");
            proof {
                reveal_strlit("─");
                assert(s@ =~= old(s)@ + Seq::new((i + 1) as nat, |j: int| '─'));
            }
            i = i + 1;
        }
    } else {
        assert(old(s)@ + mark(0) =~= old(s)@);
    }
}

/// A signal drawn as text: a lone ON value is a dot, several in a row are dashes, and an
/// OFF value is a space.
pub fn pretty_signal(signal: &[bool]) -> (r: String)
    ensures
        r@ == pretty_from(signal@, 0),
{
    let n = signal.len();
    let mut s = String::new();
    let mut run: usize = 0;
    let mut i: usize = 0;
    proof {
        assert(signal@.skip(0) =~= signal@);
    }
    while i < n
        invariant
            n == signal@.len(),
            i <= n,
            run <= i,
            pretty_from(signal@, 0) == s@ + pretty_from(signal@.skip(i as int), run as nat),
        decreases n - i,
    {
        let ghost rest = signal@.skip(i as int);
        proof {
            assert(rest[0] == signal@[i as int]);
            assert(rest.drop_first() =~= signal@.skip(i + 1));
        }
        if signal[i] {
            run = run + 1;
        } else {
            let ghost before = s@;
            push_mark(&mut s, run);
            s.append(" ");
            proof {
                reveal_strlit(" ");
                assert(s@ =~= before + mark(run as nat) + seq![' ']);
                assert(before + (mark(run as nat) + seq![' '] + pretty_from(signal@.skip(i + 1), 0)) =~= s@
                    + pretty_from(signal@.skip(i + 1), 0));
            }
            run = 0;
        }
        i = i + 1;
    }
    proof {
        assert(signal@.skip(n as int) =~= Seq::<bool>::empty());
    }
    push_mark(&mut s, run);
    s
}

/// The name index of the first counter after `active`, if any.
pub open spec fn next_tab_from(names: Seq<usize>, active: usize, i: int) -> Option<usize>
    decreases names.len() - i,
{
    if i < 0 || i >= names.len() {
        None
    } else if names[i] > active {
        Some(names[i])
    } else {
        next_tab_from(names, active, i + 1)
    }
}

/// The name index of the last counter before `active` in the list, if any.
pub open spec fn prev_tab_until(names: Seq<usize>, active: usize, i: int) -> Option<usize>
    decreases i,
{
    if i <= 0 || i > names.len() {
        None
    } else if names[i - 1] < active {
        Some(names[i - 1])
    } else {
        prev_tab_until(names, active, i - 1)
    }
}

/// The tab after the active one: the first counter whose name index is larger, or the
/// active one when there is none.
pub fn tab_next(names: &[usize], active: usize) -> (r: usize)
    ensures
        r == match next_tab_from(names@, active, 0) {
            Some(n) => n,
            None => active,
        },
{
    let mut i: usize = 0;
    while i < names.len()
        invariant
            i <= names@.len(),
            next_tab_from(names@, active, 0) == next_tab_from(names@, active, i as int),
        decreases names.len() - i,
    {
        if names[i] > active {
            return names[i];
        }
        i = i + 1;
    }
    active
}

/// The tab before the active one: the last counter in the list whose name index is
/// smaller, or the active one when there is none.
pub fn tab_prev(names: &[usize], active: usize) -> (r: usize)
    ensures
        r == match prev_tab_until(names@, active, names@.len() as int) {
            Some(n) => n,
            None => active,
        },
{
    let mut i: usize = names.len();
    while i > 0
        invariant
            i <= names@.len(),
            prev_tab_until(names@, active, names@.len() as int) == prev_tab_until(names@, active, i as int),
        decreases i,
    {
        if names[i - 1] < active {
            return names[i - 1];
        }
        i = i - 1;
    }
    active
}

/// The active tab once fixed: the first counter when the active one is not listed and
/// there are counters, else the active one.
pub fn fix_active_counter(names: &[usize], active: usize) -> (r: usize)
    ensures
        r == (if !names@.contains(active) && names@.len() > 0 {
            names@[0]
        } else {
            active
        }),
{
    let mut i: usize = 0;
    while i < names.len()
        invariant
            i <= names@.len(),
            forall|j: int| 0 <= j < i ==> names@[j] != active,
        decreases names.len() - i,
    {
        if names[i] == active {
            assert(names@.contains(active));
            return active;
        }
        i = i + 1;
    }
    if names.len() > 0 {
        names[0]
    } else {
        active
    }
}

/// Why a tick duration is refused.
#[derive(Clone, Copy, Debug, PartialEq, Eq, Structural)]
pub enum TickError {
    /// "Unable to parse tick duration"
    Unparsable,
    /// "Tick duration is too short"
    TooShort,
}

/// The tick duration in milliseconds that an argument gives: a decimal `u64` of at least
/// ten.
pub fn parse_tick_duration(value: &str) -> (r: Result<u64, TickError>)
    ensures
        match parse_decimal(value@, u64::MAX as int) {
            None => r == Err::<u64, TickError>(TickError::Unparsable),
            Some(m) => if m < 10 {
                r == Err::<u64, TickError>(TickError::TooShort)
            } else {
                r == Ok::<u64, TickError>(m as u64)
            },
        },
{
    let millis = match parse_unsigned(value, u64::MAX) {
        Some(m) => m,
        None => return Err(TickError::Unparsable),
    };
    if millis < 10 {
        return Err(TickError::TooShort);
    }
    Ok(millis)
}

/// The tick interval in milliseconds of a monitor, from the interval of the provider in
/// the registry, if it could be read: half of it, at least 10 ms before halving; half of
/// 1250 ms by default.
pub fn get_tick_interval(registry_millis: Option<u32>) -> (r: u64)
    ensures
        r == match registry_millis {
            Some(d) => (if d < 10 { 10 } else { d }) / 2,
            None => 625,
        },
{
    match registry_millis {
        Some(dword) => {
            let millis = if dword < 10 {
                10
            } else {
                dword
            };
            (millis / 2) as u64
        },
        None => 1250 / 2,
    }
}

/// The name index of the first counter, in increasing order, named "Morse code".
pub fn get_object_name_index(names: &[(usize, String)]) -> (r: Option<usize>)
    ensures
        match r {
            Some(i) => exists|j: int| 0 <= j < names@.len() && (#[trigger] names@[j]).0 == i && names@[j].1@ == "Morse code"@
                && forall|k: int| 0 <= k < j ==> (#[trigger] names@[k]).1@ != "Morse code"@,
            None => forall|j: int| 0 <= j < names@.len() ==> (#[trigger] names@[j]).1@ != "Morse code"@,
        },
{
    let mut i: usize = 0;
    while i < names.len()
        invariant
            i <= names@.len(),
            forall|k: int| 0 <= k < i ==> (#[trigger] names@[k]).1@ != "Morse code"@,
        decreases names.len() - i,
    {
        if crate::perf::provide::str_equals(names[i].1.as_str(), "Morse code") {
            return Some(names[i].0);
        }
        i = i + 1;
    }
    None
}

/// Which end of a line is kept when it is cut to a width.
#[derive(Clone, Copy, Debug, PartialEq, Eq, Structural)]
pub enum TextAlignment {
    /// Keep the beginning of the line.
    Left,
    /// Keep the end of the line.
    Right,
}

/// The position of the first line feed of `s`, or its length.
pub open spec fn first_newline(s: Seq<char>) -> nat
    decreases s.len(),
{
    if s.len() == 0 {
        0
    } else if s[0] == '\n' {
        0
    } else {
        1 + first_newline(s.drop_first())
    }
}

/// A line without the carriage return at its end, if any.
pub open spec fn strip_cr(l: Seq<char>) -> Seq<char> {
    if l.len() > 0 && l.last() == '\r' {
        l.drop_last()
    } else {
        l
    }
}

/// The lines of a text, as `str::lines` gives them: the pieces before each line feed,
/// without a carriage return just before it, and a last piece without line feed when it
/// is not empty.
pub open spec fn text_lines(s: Seq<char>) -> Seq<Seq<char>>
    decreases s.len(),
{
    if s.len() == 0 {
        seq![]
    } else {
        let k = first_newline(s);
        if k >= s.len() {
            seq![s]
        } else {
            seq![strip_cr(s.take(k as int))] + text_lines(s.skip(k as int + 1))
        }
    }
}

/// A line cut to at most `width` characters, keeping the end given by `alignment`.
pub open spec fn cut_line(l: Seq<char>, alignment: TextAlignment, width: nat) -> Seq<char> {
    if l.len() <= width {
        l
    } else {
        match alignment {
            TextAlignment::Left => l.take(width as int),
            TextAlignment::Right => l.skip(l.len() - width),
        }
    }
}

/// Lines joined with line feeds between them.
pub open spec fn joined_lines(ls: Seq<Seq<char>>) -> Seq<char>
    decreases ls.len(),
{
    if ls.len() == 0 {
        seq![]
    } else if ls.len() == 1 {
        ls[0]
    } else {
        joined_lines(ls.drop_last()) + seq!['\n'] + ls.last()
    }
}

/// Each line of a text cut to a width, the lines joined with line feeds, and a line feed
/// at the end when the text ends with one.
pub open spec fn trimmed_text(s: Seq<char>, alignment: TextAlignment, width: nat) -> Seq<char> {
    joined_lines(text_lines(s).map_values(|l: Seq<char>| cut_line(l, alignment, width))) + if s.len()
        > 0 && s.last() == '\n' {
        seq!['\n']
    } else {
        seq![]
    }
}

/// The first line feed of `s` is at `k` when `s[k]` is one and nothing before it is.
proof fn lemma_first_newline_at(s: Seq<char>, k: nat)
    requires
        k < s.len(),
        s[k as int] == '\n',
        forall|j: int| 0 <= j < k ==> s[j] != '\n',
    ensures
        first_newline(s) == k,
    decreases k,
{
    if k > 0 {
        let t = s.drop_first();
        assert forall|j: int| 0 <= j < k - 1 implies t[j] != '\n' by {
            assert(t[j] == s[j + 1]);
        }
        lemma_first_newline_at(t, (k - 1) as nat);
    }
}

/// Without a line feed, the first line feed is past the end.
proof fn lemma_no_newline(s: Seq<char>)
    requires
        forall|j: int| 0 <= j < s.len() ==> s[j] != '\n',
    ensures
        first_newline(s) == s.len(),
    decreases s.len(),
{
    if s.len() > 0 {
        let t = s.drop_first();
        assert forall|j: int| 0 <= j < t.len() implies t[j] != '\n' by {
            assert(t[j] == s[j + 1]);
        }
        lemma_no_newline(t);
    }
}

/// The views of lines held as vectors of characters.
pub open spec fn char_lines(v: Seq<Vec<char>>) -> Seq<Seq<char>> {
    v.map_values(|l: Vec<char>| l@)
}

/// The lines of a text, each as a vector of characters.
fn split_text_lines(input: &str) -> (r: Vec<Vec<char>>)
    ensures
        char_lines(r@) == text_lines(input@),
{
    let n = input.unicode_len();
    let mut lines: Vec<Vec<char>> = Vec::new();
    let mut current: usize = 0;
    proof {
        assert(input@.skip(0) =~= input@);
        assert(char_lines(lines@) + text_lines(input@) =~= text_lines(input@));
    }
    while current < n
        invariant
            n == input@.len(),
            current <= n,
            char_lines(lines@) + text_lines(input@.skip(current as int)) == text_lines(input@),
        decreases n - current,
    {
        let ghost rest = input@.skip(current as int);
        let mut line: Vec<char> = Vec::new();
        let mut k: usize = current;
        while k < n && input.get_char(k) != '\n'
            invariant
                n == input@.len(),
                current <= k <= n,
                rest == input@.skip(current as int),
                line@ == rest.take(k - current),
                forall|j: int| 0 <= j < k - current ==> rest[j] != '\n',
            decreases n - k,
        {
            let c = input.get_char(k);
            line.push(c);
            proof {
                assert(rest[k - current] == c);
                assert(rest.take(k + 1 - current) =~= rest.take(k - current).push(c));
            }
            k = k + 1;
        }
        if k < n {
            proof {
                assert(rest[k - current] == '\n');
                lemma_first_newline_at(rest, (k - current) as nat);
                assert(rest.skip(k - current + 1) =~= input@.skip(k + 1));
            }
            let len = line.len();
            if len > 0 && line[len - 1] == '\r' {
                line.pop();
            }
            proof {
                assert(line@ == strip_cr(rest.take(k - current)));
                assert(char_lines(lines@.push(line)) =~= char_lines(lines@) + seq![line@]);
            }
            lines.push(line);
            current = k + 1;
        } else {
            proof {
                lemma_no_newline(rest);
                assert(rest.take(k - current) =~= rest);
                assert(input@.skip(n as int) =~= Seq::<char>::empty());
                assert(char_lines(lines@.push(line)) =~= char_lines(lines@) + seq![line@]);
            }
            lines.push(line);
            current = n;
        }
    }
    proof {
        assert(input@.skip(n as int) =~= Seq::<char>::empty());
        assert(char_lines(lines@) + text_lines(Seq::<char>::empty()) =~= char_lines(lines@));
    }
    lines
}

/// Append a line cut to a width.
fn push_cut_line(out: &mut String, line: &Vec<char>, alignment: TextAlignment, width: usize)
    ensures
        final(out)@ == old(out)@ + cut_line(line@, alignment, width as nat),
{
    let len = line.len();
    let (from, to) = if len <= width {
        (0, len)
    } else {
        match alignment {
            TextAlignment::Left => (0, width),
            TextAlignment::Right => (len - width, len),
        }
    };
    let ghost piece = line@.subrange(from as int, to as int);
    let mut i: usize = from;
    while i < to
        invariant
            from <= i <= to,
            to <= line@.len(),
            piece == line@.subrange(from as int, to as int),
            out@ == old(out)@ + piece.take(i - from),
        decreases to - i,
    {
        push_char(out, line[i]);
        proof {
            assert(piece.take(i + 1 - from) =~= piece.take(i - from).push(line@[i as int]));
        }
        i = i + 1;
    }
    proof {
        assert(piece.take(to - from) =~= piece);
        assert(piece =~= cut_line(line@, alignment, width as nat));
    }
}

/// Each line of a text cut to `width` characters, keeping the end that `alignment` names.
/// The lines are those of `str::lines`, joined with line feeds, and a line feed ends the
/// result when it ends the text.
pub fn trim_lines_to_width(input: &str, alignment: TextAlignment, width: usize) -> (r: String)
    ensures
        r@ == trimmed_text(input@, alignment, width as nat),
{
    let lines = split_text_lines(input);
    let ghost cut = char_lines(lines@).map_values(|l: Seq<char>| cut_line(l, alignment, width as nat));
    let mut out = String::new();
    let mut i: usize = 0;
    proof {
        assert(cut.take(0) =~= Seq::<Seq<char>>::empty());
    }
    while i < lines.len()
        invariant
            i <= lines@.len(),
            cut == char_lines(lines@).map_values(|l: Seq<char>| cut_line(l, alignment, width as nat)),
            out@ == joined_lines(cut.take(i as int)),
        decreases lines.len() - i,
    {
        let ghost before = out@;
        if i > 0 {
            push_char(&mut out, '\n');
        }
        push_cut_line(&mut out, &lines[i], alignment, width);
        proof {
            let t = cut.take(i + 1);
            assert(t.drop_last() =~= cut.take(i as int));
            assert(t.last() == cut_line(lines@[i as int]@, alignment, width as nat));
            if i == 0 {
                assert(out@ =~= t[0]);
            } else {
                assert(out@ =~= joined_lines(t.drop_last()) + seq!['\n'] + t.last());
            }
        }
        i = i + 1;
    }
    proof {
        assert(cut.take(lines@.len() as int) =~= cut);
    }
    let n = input.unicode_len();
    if n > 0 && input.get_char(n - 1) == '\n' {
        let ghost before = out@;
        push_char(&mut out, '\n');
        proof {
            assert(out@ =~= before + seq!['\n']);
        }
    } else {
        proof {
            assert(out@ =~= out@ + Seq::<char>::empty());
        }
    }
    out
}

} // verus!
