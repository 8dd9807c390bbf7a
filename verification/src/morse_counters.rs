//! A provider of Morse counters: an object whose counters send messages in Morse code,
//! encoded as ranges of values, for a configurable number of instances.
use std::ops::Range;
use vstd::prelude::*;
use crate::error::WinError;
use crate::perf::provide::{
    err_view, InstanceTemplateView, PerfClock, PerfCounterDefinitionTemplate, PerfInstanceDefinitionTemplate,
    PerfObjectTypeTemplate, PerfProvider,
};
use crate::error::WinErrorView;
use crate::perf::types::{definition_valid, normalized_raw, CounterTypeDefinition};
use crate::perf::useful::{
    CounterId, InstanceId, InstanceKey, NumInstances, ObjectData, ValueKey, MAX_INSTANCES,
    PERF_NO_UNIQUE_ID,
};
use crate::format::first_nul;
use crate::perf::nom::{lemma_first_nul_at, lemma_no_nul, units_at};
use crate::perf::raw::read_u16;
use crate::perf::useful::{utf16_lossy, utf16_to_string};
use crate::perf::values::{CounterValue, CounterValueView};
use crate::rtsm::{spec_ranges_are_valid, RtsmRanges, SignalValue};

verus! {

/// A source of messages to send.
pub trait StringsProvider {
    fn provide(&mut self) -> String;
}

/// Always the same message.
pub struct ConstString {
    string: String,
}

impl ConstString {
    pub closed spec fn message(&self) -> Seq<char> {
        self.string@
    }

    pub fn new(s: &str) -> (r: Self)
        ensures
            r.message() == s@,
    {
        ConstString { string: String::from_str(s) }
    }
}

impl StringsProvider for ConstString {
    fn provide(&mut self) -> (r: String)
        ensures
            r@ == old(self).message(),
            final(self).message() == old(self).message(),
    {
        self.string.clone()
    }
}

/// What RustyXML's `unescape` gives for a text: the text with its XML entities replaced,
/// or `None` when an entity is malformed or unknown.
pub uninterp spec fn xml_unescaped(text: Seq<char>) -> Option<Seq<char>>;

/// Calls RustyXML's `xml::unescape`: its result is named `xml_unescaped`. A text without
/// `&` holds no entity and comes back as it is.
#[verifier::external_body]
fn xml_unescape(text: &str) -> (r: Option<String>)
    ensures
        r matches Some(u) ==> xml_unescaped(text@) == Some(u@),
        r is None ==> xml_unescaped(text@) is None,
        r matches Some(u) ==> (!text@.contains('&') ==> u@ == text@),
        !text@.contains('&') ==> r is Some,
{
    match xml::unescape(text) {
        Ok(u) => Some(u),
        Err(_) => None,
    }
}

/// A message as a web service sends it: its XML entities replaced, or the message as it
/// is when an entity cannot be read.
pub fn unescape_or_keep(text: &str) -> (r: String)
    ensures
        r@ == match xml_unescaped(text@) {
            Some(u) => u,
            None => text@,
        },
        !text@.contains('&') ==> r@ == text@,
{
    match xml_unescape(text) {
        Some(u) => u,
        None => String::from_str(text),
    }
}

/// The registry key of the Morse service.
pub const SUB_KEY_MORSE: &'static str = "SYSTEM\\CurrentControlSet\\Services\\Morse";

/// The registry value that holds the custom message.
pub const VALUE_NAME_CUSTOM_MESSAGE: &'static str = "CustomMessage";

/// Reads the message from a string value in the registry, at each request.
pub struct RegKeyStringsProvider {
    sub_key: String,
    value_name: String,
}

impl RegKeyStringsProvider {
    pub closed spec fn sub_key_view(&self) -> Seq<char> {
        self.sub_key@
    }

    pub closed spec fn value_name_view(&self) -> Seq<char> {
        self.value_name@
    }

    pub fn new(sub_key: &str, value_name: &str) -> (r: Self)
        ensures
            r.sub_key_view() == sub_key@,
            r.value_name_view() == value_name@,
    {
        RegKeyStringsProvider { sub_key: String::from_str(sub_key), value_name: String::from_str(value_name) }
    }

    /// The key under `HKEY_LOCAL_MACHINE` to open.
    pub fn sub_key(&self) -> (r: &str)
        ensures
            r@ == self.sub_key_view(),
    {
        self.sub_key.as_str()
    }

    /// The value to read.
    pub fn value_name(&self) -> (r: &str)
        ensures
            r@ == self.value_name_view(),
    {
        self.value_name.as_str()
    }
}

/// The provider of the custom message: the value `CustomMessage` of the Morse service key.
pub fn get_reg_key_strings_provider() -> (r: RegKeyStringsProvider)
    ensures
        r.sub_key_view() == SUB_KEY_MORSE@,
        r.value_name_view() == VALUE_NAME_CUSTOM_MESSAGE@,
{
    RegKeyStringsProvider::new(SUB_KEY_MORSE, VALUE_NAME_CUSTOM_MESSAGE)
}

/// The code units of a string value read from the registry: little-endian pairs of bytes,
/// up to the first nul unit, or all of them where there is none.
pub open spec fn value_units(b: Seq<u8>) -> Seq<u16> {
    let units = units_at(b, 0, b.len() as int);
    units.take(first_nul(units) as int)
}

fn units_before_nul(buffer: &[u8]) -> (r: Vec<u16>)
    ensures
        r@ == value_units(buffer@),
{
    let ghost all = units_at(buffer@, 0, buffer@.len() as int);
    let len = buffer.len();
    let n = len / 2;
    let mut units: Vec<u16> = Vec::new();
    let mut i: usize = 0;
    while i < n
        invariant
            len == buffer@.len(),
            n == buffer@.len() / 2,
            all == units_at(buffer@, 0, buffer@.len() as int),
            all.len() == n,
            i <= n,
            units@ == all.take(i as int),
            forall|j: int| 0 <= j < i ==> all[j] != 0,
        decreases n - i,
    {
        assert(2 * i + 2 <= len) by (nonlinear_arith)
            requires
                i < n,
                n == len / 2,
        ;
        let u = read_u16(buffer, 2 * i);
        assert(u == all[i as int]);
        if u == 0 {
            proof {
                lemma_first_nul_at(all, i as nat);
            }
            return units;
        }
        units.push(u);
        i = i + 1;
        assert(units@ =~= all.take(i as int));
    }
    proof {
        lemma_no_nul(all);
        assert(all.take(n as int) =~= all);
    }
    units
}

/// The message in the bytes of a string value read from the registry: the text of its
/// code units up to the first nul, unpaired surrogates replaced.
pub fn message_from_value(buffer: &[u8]) -> (r: String)
    ensures
        r@ == utf16_lossy(value_units(buffer@)),
{
    let units = units_before_nul(buffer);
    utf16_to_string(units.as_slice())
}

/// The number of instances of the Morse object from the registry value, if it could be
/// read: its bits as a signed number; `PERF_NO_INSTANCES` stays, a count is brought into
/// 1..=1024, anything else means no instances.
pub fn get_number_of_instances(registry_value: Option<u32>) -> (r: NumInstances)
    ensures
        r == match registry_value {
            Some(d) => {
                let num = d as i32;
                if num >= 0 && num <= MAX_INSTANCES {
                    NumInstances::N(if num < 1 { 1 } else { num as u32 })
                } else {
                    NumInstances::NoInstances
                }
            },
            None => NumInstances::NoInstances,
        },
{
    match registry_value {
        Some(dword) => {
            let num = dword as i32;
            match NumInstances::try_from_raw(num) {
                Ok(NumInstances::NoInstances) => NumInstances::NoInstances,
                Ok(NumInstances::N(n)) => {
                    let capped = if n > 1024 {
                        1024
                    } else {
                        n
                    };
                    NumInstances::N(if capped < 1 {
                        1
                    } else {
                        capped
                    })
                },
                Err(_) => NumInstances::NoInstances,
            }
        },
        None => NumInstances::NoInstances,
    }
}

/// The tick interval in milliseconds of the provider, from the registry value, if it could
/// be read: at least 10 ms; 1250 ms by default.
pub fn get_tick_interval(registry_value: Option<u32>) -> (r: u64)
    ensures
        r == match registry_value {
            Some(d) => if d < 10 { 10 } else { d },
            None => 1250,
        },
{
    match registry_value {
        Some(d) => if d < 10 {
            10
        } else {
            d as u64
        },
        None => 1250,
    }
}

/// The decimal digits of `n`, as UTF-16 code units.
pub open spec fn decimal_units(n: nat) -> Seq<u16>
    decreases n,
{
    if n < 10 {
        seq![(48 + n) as u16]
    } else {
        decimal_units(n / 10).push((48 + n % 10) as u16)
    }
}

/// `s` with spaces in front up to `width` code units.
pub open spec fn pad_left(s: Seq<u16>, width: nat) -> Seq<u16> {
    if s.len() < width {
        Seq::new((width - s.len()) as nat, |i: int| 32u16) + s
    } else {
        s
    }
}

/// "Channel " in UTF-16.
pub open spec fn channel_prefix() -> Seq<u16> {
    seq![67u16, 104u16, 97u16, 110u16, 110u16, 101u16, 108u16, 32u16]
}

/// The name of instance `index` when the count of instances has `width` digits: "Channel "
/// and the index, right-aligned.
pub open spec fn channel_name(index: nat, width: nat) -> Seq<u16> {
    channel_prefix() + pad_left(decimal_units(index), width)
}

/// The decimal digits of `n` as UTF-16 code units.
fn decimal(n: u64) -> (r: Vec<u16>)
    ensures
        r@ == decimal_units(n as nat),
    decreases n,
{
    if n < 10 {
        let mut v: Vec<u16> = Vec::new();
        v.push((48 + n) as u16);
        v
    } else {
        let mut v = decimal(n / 10);
        v.push((48 + n % 10) as u16);
        v
    }
}

/// The name of an instance: "Channel " and its index, right-aligned to `width`.
pub fn name_for_instance(index: usize, width: usize) -> (r: Vec<u16>)
    ensures
        r@ == channel_name(index as nat, width as nat),
{
    let mut out: Vec<u16> = Vec::new();
    out.push(67);
    out.push(104);
    out.push(97);
    out.push(110);
    out.push(110);
    out.push(101);
    out.push(108);
    out.push(32);
    assert(out@ =~= channel_prefix());
    let digits = decimal(index as u64);
    let mut pad: usize = if digits.len() < width {
        width - digits.len()
    } else {
        0
    };
    let ghost prefix = out@;
    let mut i: usize = 0;
    while i < pad
        invariant
            i <= pad,
            out@ == prefix + Seq::new(i as nat, |j: int| 32u16),
        decreases pad - i,
    {
        out.push(32);
        proof {
            assert(out@ =~= prefix + Seq::new((i + 1) as nat, |j: int| 32u16));
        }
        i = i + 1;
    }
    let ghost padded = out@;
    let mut k: usize = 0;
    while k < digits.len()
        invariant
            k <= digits@.len(),
            out@ == padded + digits@.take(k as int),
        decreases digits.len() - k,
    {
        out.push(digits[k]);
        proof {
            assert(out@ =~= padded + digits@.take(k + 1));
        }
        k = k + 1;
    }
    proof {
        assert(digits@.take(digits@.len() as int) =~= digits@);
        if digits@.len() < width {
            assert(out@ =~= channel_prefix() + (Seq::new((width - digits@.len()) as nat, |j: int| 32u16) + digits@));
        } else {
            assert(Seq::new(0, |j: int| 32u16) + digits@ =~= digits@);
            assert(out@ =~= channel_prefix() + digits@);
        }
    }
    out
}

/// The identities of the instances: the one of an object without instances, or channels
/// numbered from zero, named after their index.
pub fn instances_for(num_instances: NumInstances) -> (r: Vec<InstanceId>)
    ensures
        num_instances is NoInstances ==> r@.len() == 1 && r@[0].id_raw() == PERF_NO_UNIQUE_ID
            && r@[0].name_view() == Seq::<u16>::empty(),
        num_instances matches NumInstances::N(n) ==> r@.len() == n && forall|i: int|
            0 <= i < n ==> (#[trigger] r@[i]).id_raw() == i as i32 && r@[i].name_view() == channel_name(
                i as nat,
                decimal_units(n as nat).len(),
            ),
{
    let mut out: Vec<InstanceId> = Vec::new();
    match num_instances {
        NumInstances::NoInstances => {
            out.push(InstanceId::perf_no_instances());
        },
        NumInstances::N(n) => {
            let width = decimal(n as u64).len();
            let mut i: u32 = 0;
            while i < n
                invariant
                    i <= n,
                    width == decimal_units(n as nat).len(),
                    out@.len() == i,
                    forall|j: int| 0 <= j < i ==> (#[trigger] out@[j]).id_raw() == j as i32 && out@[j].name_view()
                        == channel_name(j as nat, width as nat),
                decreases n - i,
            {
                let name = name_for_instance(i as usize, width);
                out.push(InstanceId::new(i as i32, name.as_slice()));
                i = i + 1;
            }
        },
    }
    out
}

/// The off and on ranges of the channel of instance `index`: four pairs of ranges in turn,
/// 10..20 and 60..70 first, ten higher for each next instance.
pub open spec fn channel_ranges(index: nat) -> (Range<u32>, Range<u32>) {
    let off = (10 + 10 * (index % 4)) as u32;
    let on = (60 + 10 * (index % 4)) as u32;
    (off..(off + 10) as u32, on..(on + 10) as u32)
}

/// The ranges that the channel of instance `index` encodes its signal in.
pub fn ranges_for_channel(index: usize) -> (r: RtsmRanges<u32>)
    ensures
        (r.off(), r.on()) == channel_ranges(index as nat),
{
    let k = (index % 4) as u32;
    let off = 10 + 10 * k;
    let on = 60 + 10 * k;
    let off_range = off..off + 10;
    let on_range = on..on + 10;
    proof {
        assert(spec_ranges_are_valid(off_range, on_range));
    }
    RtsmRanges::new_unchecked(off_range, on_range)
}

/// `m` with a zero value for counter `c` and each instance, one after the other.
pub open spec fn zero_row(m: Map<ValueKey, CounterValueView>, c: CounterId, instances: Seq<InstanceId>) -> Map<ValueKey, CounterValueView>
    decreases instances.len(),
{
    if instances.len() == 0 {
        m
    } else {
        zero_row(m, c, instances.drop_last()).insert(
            (c.name_index_offset, instances.last().key()),
            CounterValueView::Dword(0),
        )
    }
}

/// `m` with a zero value for each counter and each instance.
pub open spec fn zero_rows(m: Map<ValueKey, CounterValueView>, counters: Seq<CounterId>, instances: Seq<InstanceId>) -> Map<ValueKey, CounterValueView>
    decreases counters.len(),
{
    if counters.len() == 0 {
        m
    } else {
        zero_row(zero_rows(m, counters.drop_last(), instances), counters.last(), instances)
    }
}

/// The data of the counters before any message: zero for every counter and instance.
pub fn initial_data(counters: &[CounterId], instances: &[InstanceId]) -> (r: ObjectData)
    ensures
        r.wf(),
        r@ == zero_rows(Map::empty(), counters@, instances@),
{
    let mut data = ObjectData::new();
    zero_data(&mut data, counters, instances);
    data
}

/// Set the value of every counter for every instance to zero, keeping the other values.
pub fn zero_data(data: &mut ObjectData, counters: &[CounterId], instances: &[InstanceId])
    requires
        old(data).wf(),
    ensures
        final(data).wf(),
        final(data)@ == zero_rows(old(data)@, counters@, instances@),
{
    let mut c: usize = 0;
    proof {
        assert(counters@.take(0) =~= Seq::<CounterId>::empty());
    }
    while c < counters.len()
        invariant
            c <= counters@.len(),
            data.wf(),
            data@ == zero_rows(old(data)@, counters@.take(c as int), instances@),
        decreases counters.len() - c,
    {
        let ghost base = data@;
        let mut i: usize = 0;
        proof {
            assert(instances@.take(0) =~= Seq::<InstanceId>::empty());
        }
        while i < instances.len()
            invariant
                c < counters@.len(),
                i <= instances@.len(),
                data.wf(),
                data@ == zero_row(base, counters@[c as int], instances@.take(i as int)),
            decreases instances.len() - i,
        {
            data.set(counters[c], instances[i].duplicate(), CounterValue::Dword(0));
            proof {
                assert(instances@.take(i + 1).drop_last() =~= instances@.take(i as int));
                assert(instances@.take(i + 1).last() == instances@[i as int]);
            }
            i = i + 1;
        }
        proof {
            assert(instances@.take(instances@.len() as int) =~= instances@);
            assert(counters@.take(c + 1).drop_last() =~= counters@.take(c as int));
            assert(counters@.take(c + 1).last() == counters@[c as int]);
        }
        c = c + 1;
    }
    proof {
        assert(counters@.take(counters@.len() as int) =~= counters@);
    }
}

/// `m` with the double word `values[i]` for counter `c` and `instances[i]`, one after the
/// other.
pub open spec fn dword_row(m: Map<ValueKey, CounterValueView>, c: CounterId, instances: Seq<InstanceId>, values: Seq<u32>) -> Map<ValueKey, CounterValueView>
    decreases instances.len(),
{
    if instances.len() == 0 {
        m
    } else {
        dword_row(m, c, instances.drop_last(), values.take(instances.len() - 1)).insert(
            (c.name_index_offset, instances.last().key()),
            CounterValueView::Dword(values[instances.len() - 1]),
        )
    }
}

/// Set the value of the counter for each instance to the double word at the same place.
pub fn set_dwords(data: &mut ObjectData, counter: CounterId, instances: &[InstanceId], values: &[u32])
    requires
        old(data).wf(),
        instances@.len() == values@.len(),
    ensures
        final(data).wf(),
        final(data)@ == dword_row(old(data)@, counter, instances@, values@),
{
    let mut i: usize = 0;
    proof {
        assert(instances@.take(0) =~= Seq::<InstanceId>::empty());
    }
    while i < instances.len()
        invariant
            i <= instances@.len(),
            instances@.len() == values@.len(),
            data.wf(),
            data@ == dword_row(old(data)@, counter, instances@.take(i as int), values@.take(i as int)),
        decreases instances.len() - i,
    {
        data.set(counter, instances[i].duplicate(), CounterValue::Dword(values[i]));
        proof {
            let t = instances@.take(i + 1);
            assert(t.drop_last() =~= instances@.take(i as int));
            assert(t.last() == instances@[i as int]);
            assert(values@.take(i + 1).take(i as int) =~= values@.take(i as int));
            assert(values@.take(i + 1)[i as int] == values@[i as int]);
        }
        i = i + 1;
    }
    proof {
        assert(instances@.take(instances@.len() as int) =~= instances@);
        assert(values@.take(values@.len() as int) =~= values@);
    }
}

/// The value shown for a counter of an instance: the cached one, or zero.
pub open spec fn shown_value(cache: Map<ValueKey, CounterValueView>, key: ValueKey) -> CounterValueView {
    if cache.contains_key(key) {
        cache[key]
    } else {
        CounterValueView::Dword(0)
    }
}

/// The provider of the Morse object: three counters (SOS, message of the day, custom
/// message) whose values come from a cache of the data, refreshed before each collection.
pub struct MorseCountersProvider<F: Fn(PerfObjectTypeTemplate) -> Result<u32, WinError>> {
    first_counter_of: F,
    objects: Vec<PerfObjectTypeTemplate>,
    counters: Vec<PerfCounterDefinitionTemplate>,
    cache: ObjectData,
    instances: Vec<InstanceId>,
    num_instances: NumInstances,
}

impl<F: Fn(PerfObjectTypeTemplate) -> Result<u32, WinError>> MorseCountersProvider<F> {
    #[verifier::type_invariant]
    spec fn inv(self) -> bool {
        &&& self.cache.wf()
        &&& forall|o: PerfObjectTypeTemplate| call_requires(self.first_counter_of, (o,))
    }

    /// The function that gives the first counter of an object.
    pub closed spec fn first_counter_fn(&self) -> F {
        self.first_counter_of
    }

    /// The cached data.
    pub closed spec fn cache(&self) -> Map<ValueKey, CounterValueView> {
        self.cache@
    }

    /// The instances published.
    pub closed spec fn instance_list(&self) -> Seq<InstanceId> {
        self.instances@
    }

    /// The number of instances.
    pub closed spec fn count(&self) -> NumInstances {
        self.num_instances
    }

    /// The objects published.
    pub closed spec fn object_list(&self) -> Seq<PerfObjectTypeTemplate> {
        self.objects@
    }

    /// The counters published.
    pub closed spec fn counter_list(&self) -> Seq<PerfCounterDefinitionTemplate> {
        self.counters@
    }

    /// A provider of the object at name offset `object`, with counters at the three given
    /// name offsets, all of type 0 (a 32-bit number shown in hexadecimal), no data and no
    /// instances yet. `first_counter_of` reads the first counter of the provider.
    pub fn new(first_counter_of: F, object: u32, sos: u32, motd: u32, custom: u32) -> (r: Self)
        requires
            forall|o: PerfObjectTypeTemplate| call_requires(first_counter_of, (o,)),
            object < u32::MAX,
            sos < u32::MAX,
            motd < u32::MAX,
            custom < u32::MAX,
        ensures
            r.first_counter_fn() == first_counter_of,
            r.cache() == Map::<ValueKey, CounterValueView>::empty(),
            r.instance_list() == Seq::<InstanceId>::empty(),
            r.count() == NumInstances::NoInstances,
            r.object_list().len() == 1 && r.object_list()[0].name_offset == object,
            r.counter_list().len() == 3,
            r.counter_list()[0].name_offset == sos,
            r.counter_list()[1].name_offset == motd,
            r.counter_list()[2].name_offset == custom,
            forall|i: int| 0 <= i < 3 ==> (#[trigger] r.counter_list()[i]).counter_type.raw() == normalized_raw(0),
    {
        proof {
            assert(0u32 & 0xC00u32 == 0u32 && 0u32 & 0xF0000u32 == 0u32 && 0u32 & 0x300000u32 == 0u32
                && 0u32 & 0x0FC00000u32 == 0u32 && 0u32 & !0x03C00000u32 == 0u32 && 0u32 & 0xF0000000u32
                == 0u32) by (bit_vector);
            assert(definition_valid(0));
        }
        let typ = CounterTypeDefinition::from_raw(0).unwrap();
        let mut objects: Vec<PerfObjectTypeTemplate> = Vec::new();
        objects.push(PerfObjectTypeTemplate::new(object));
        let mut counters: Vec<PerfCounterDefinitionTemplate> = Vec::new();
        counters.push(PerfCounterDefinitionTemplate::new(sos, typ));
        counters.push(PerfCounterDefinitionTemplate::new(motd, typ));
        counters.push(PerfCounterDefinitionTemplate::new(custom, typ));
        MorseCountersProvider {
            first_counter_of,
            objects,
            counters,
            cache: ObjectData::new(),
            instances: Vec::new(),
            num_instances: NumInstances::NoInstances,
        }
    }

    /// Take a fresh copy of the data and of the instances, as before each collection.
    pub fn refresh(&mut self, cache: ObjectData, instances: Vec<InstanceId>, num_instances: NumInstances)
        requires
            cache.wf(),
        ensures
            final(self).cache() == cache@,
            final(self).instance_list() == instances@,
            final(self).count() == num_instances,
            final(self).object_list() == old(self).object_list(),
            final(self).counter_list() == old(self).counter_list(),
    {
        proof {
            use_type_invariant(&*self);
        }
        self.cache = cache;
        self.instances = instances;
        self.num_instances = num_instances;
    }
}

impl<F: Fn(PerfObjectTypeTemplate) -> Result<u32, WinError>> PerfProvider for MorseCountersProvider<F> {
    open spec fn answers_named(&self) -> bool {
        true
    }

    open spec fn objects_of(&self) -> Seq<PerfObjectTypeTemplate> {
        self.object_list()
    }

    /// What the function the provider was made with may give.
    open spec fn first_counter_may_be(&self, t: PerfObjectTypeTemplate, r: Result<u32, WinErrorView>) -> bool {
        exists|x: Result<u32, WinError>| #[trigger] call_ensures(self.first_counter_fn(), (t,), x) && err_view(x) == r
    }

    open spec fn time_of(&self, t: PerfObjectTypeTemplate) -> PerfClock {
        PerfClock { PerfTime: 0, PerfFreq: 0 }
    }

    open spec fn counters_of(&self, t: PerfObjectTypeTemplate) -> Seq<PerfCounterDefinitionTemplate> {
        self.counter_list()
    }

    /// No instances for an object without instances; else one per instance identity,
    /// without parent.
    open spec fn instances_of(&self, t: PerfObjectTypeTemplate) -> Option<Seq<InstanceTemplateView>> {
        match self.count() {
            NumInstances::NoInstances => None,
            NumInstances::N(_) => Some(
                Seq::new(
                    self.instance_list().len(),
                    |i: int|
                        InstanceTemplateView {
                            parent_index: 0,
                            parent_instance: 0,
                            unique_id: self.instance_list()[i].id_raw(),
                            name: self.instance_list()[i].name_view(),
                        },
                ),
            ),
        }
    }

    /// The cached value of the counter for the instance, or zero.
    open spec fn data_of(
        &self,
        t: PerfObjectTypeTemplate,
        c: PerfCounterDefinitionTemplate,
        i: Option<InstanceTemplateView>,
        now: PerfClock,
    ) -> CounterValueView {
        shown_value(
            self.cache(),
            (
                c.name_offset,
                match i {
                    Some(v) => (if v.unique_id == PERF_NO_UNIQUE_ID {
                        InstanceKey::Name(v.name)
                    } else {
                        InstanceKey::Id(v.unique_id)
                    }),
                    None => InstanceKey::Name(Seq::<u16>::empty()),
                },
            ),
        )
    }

    /// Asks the function the provider was made with; the provider stays as it is.
    fn first_counter(&mut self, for_object: &PerfObjectTypeTemplate) -> (r: Result<u32, WinError>)
        ensures
            call_ensures(old(self).first_counter_fn(), (*for_object,), r),
            *final(self) == *old(self),
    {
        proof {
            use_type_invariant(&*self);
        }
        let r = (self.first_counter_of)(*for_object);
        proof {
            assert(call_ensures(self.first_counter_fn(), (*for_object,), r));
            assert(self.first_counter_may_be(*for_object, err_view(r)));
        }
        r
    }

    fn objects(&self) -> (r: Vec<PerfObjectTypeTemplate>)
        ensures
            r@ == self.object_list(),
    {
        let mut out: Vec<PerfObjectTypeTemplate> = Vec::new();
        let mut i: usize = 0;
        while i < self.objects.len()
            invariant
                i <= self.objects@.len(),
                out@ == self.objects@.take(i as int),
            decreases self.objects.len() - i,
        {
            out.push(self.objects[i]);
            proof {
                assert(out@ =~= self.objects@.take(i + 1));
            }
            i = i + 1;
        }
        proof {
            assert(self.objects@.take(self.objects@.len() as int) =~= self.objects@);
        }
        assert(self.objects_of() == self.object_list());
        assert(self.answers_named());
        out
    }

    fn time(&self, for_object: &PerfObjectTypeTemplate) -> (r: PerfClock)
        ensures
            r.PerfTime == 0 && r.PerfFreq == 0,
    {
        PerfClock { PerfTime: 0, PerfFreq: 0 }
    }

    fn counters(&self, for_object: &PerfObjectTypeTemplate) -> (r: Vec<PerfCounterDefinitionTemplate>)
        ensures
            r@ == self.counter_list(),
    {
        let mut out: Vec<PerfCounterDefinitionTemplate> = Vec::new();
        let mut i: usize = 0;
        while i < self.counters.len()
            invariant
                i <= self.counters@.len(),
                out@ == self.counters@.take(i as int),
            decreases self.counters.len() - i,
        {
            out.push(self.counters[i]);
            proof {
                assert(out@ =~= self.counters@.take(i + 1));
            }
            i = i + 1;
        }
        proof {
            assert(self.counters@.take(self.counters@.len() as int) =~= self.counters@);
        }
        out
    }

    /// No instances for an object without instances; else one per instance identity.
    fn instances(&self, for_object: &PerfObjectTypeTemplate) -> (r: Option<Vec<PerfInstanceDefinitionTemplate>>)
        ensures
            self.count() is NoInstances ==> r is None,
            self.count() is N ==> (r matches Some(v) && v@.len() == self.instance_list().len() && forall|i: int|
                0 <= i < v@.len() ==> (#[trigger] v@[i]).UniqueID == self.instance_list()[i].id_raw()
                    && v@[i].Name@ == self.instance_list()[i].name_view()),
    {
        match self.num_instances {
            NumInstances::NoInstances => {
                assert(self.instances_of(*for_object) is None);
                None
            },
            NumInstances::N(_) => {
                let mut out: Vec<PerfInstanceDefinitionTemplate> = Vec::new();
                let mut i: usize = 0;
                while i < self.instances.len()
                    invariant
                        i <= self.instances@.len(),
                        out@.len() == i,
                        forall|j: int| 0 <= j < i ==> (#[trigger] out@[j]).UniqueID == self.instances@[j].id_raw()
                            && out@[j].Name@ == self.instances@[j].name_view() && out@[j].ParentObjectTitleIndex == 0
                            && out@[j].ParentObjectInstance == 0,
                    decreases self.instances.len() - i,
                {
                    out.push(PerfInstanceDefinitionTemplate::from_instance(&self.instances[i]));
                    i = i + 1;
                }
                proof {
                    assert(out@.map_values(|t: PerfInstanceDefinitionTemplate| t@) =~= self.instances_of(*for_object)->0);
                }
                Some(out)
            },
        }
    }

    /// The cached value of the counter for the instance, or zero.
    fn data(
        &self,
        for_object: &PerfObjectTypeTemplate,
        per_counter: &PerfCounterDefinitionTemplate,
        per_instance: Option<&PerfInstanceDefinitionTemplate>,
        now: PerfClock,
    ) -> (r: CounterValue)
        ensures
            r@ == shown_value(
                self.cache(),
                (
                    per_counter.name_offset,
                    match per_instance {
                        Some(t) => (if t.UniqueID == PERF_NO_UNIQUE_ID {
                            InstanceKey::Name(t.Name@)
                        } else {
                            InstanceKey::Id(t.UniqueID)
                        }),
                        None => InstanceKey::Name(Seq::<u16>::empty()),
                    },
                ),
            ),
    {
        proof {
            use_type_invariant(self);
        }
        let counter = CounterId::new(per_counter.name_offset);
        let instance = match per_instance {
            Some(inst) => InstanceId::from_template(inst),
            None => InstanceId::perf_no_instances(),
        };
        match self.cache.get(counter, instance) {
            Some(v) => v.to_owned(),
            None => CounterValue::Dword(0),
        }
    }
}

} // verus!
