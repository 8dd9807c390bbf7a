//! Identities of instances and counters, and the values of an object's counters.
use vstd::prelude::*;

use std::cmp::Ordering;
use widestring::U16Str;

use crate::perf::values::{CounterVal, CounterValue, CounterValueView};

verus! {

/// The `NumInstances` value of an object without instances.
pub const PERF_NO_INSTANCES: i32 = -1;

/// The `UniqueID` value of an instance that has none.
pub const PERF_NO_UNIQUE_ID: i32 = -1;

/// The most instances an object may have.
pub const MAX_INSTANCES: i32 = 1024;

/// The `NumInstances` attribute of an object.
#[derive(Copy, Clone, Debug, Eq, PartialEq, Structural)]
pub enum NumInstances {
    /// Corresponds to `PERF_NO_INSTANCES`.
    NoInstances,
    /// Non-negative number of instances; zero means that no instance is available at
    /// the moment.
    N(u32),
}

impl NumInstances {
    /// Whether the object has instances: `false` for `NoInstances` (`PERF_NO_INSTANCES`,
    /// an object with a single implicit instance), `true` for a number of instances.
    pub fn has_instances(&self) -> (r: bool)
        ensures
            r == (*self is N),
    {
        match self {
            NumInstances::NoInstances => false,
            NumInstances::N(_) => true,
        }
    }

    /// Total number of counter blocks of the object.
    pub fn num_counter_blocks(&self) -> (r: u32)
        ensures
            r == match *self {
                NumInstances::NoInstances => 1u32,
                NumInstances::N(n) => n,
            },
    {
        match self {
            NumInstances::NoInstances => 1,
            NumInstances::N(n) => *n,
        }
    }

    /// The attribute for a raw value: `PERF_NO_INSTANCES`, or a count up to 1024.
    pub fn try_from_raw(value: i32) -> (r: Result<Self, ()>)
        ensures
            r == spec_num_instances(value),
    {
        if value == PERF_NO_INSTANCES {
            Ok(NumInstances::NoInstances)
        } else if value >= 0 && value <= MAX_INSTANCES {
            Ok(NumInstances::N(value as u32))
        } else {
            Err(())
        }
    }

    /// The raw value of the attribute.
    pub fn into_raw(self) -> (r: i32)
        ensures
            r == raw_num_instances(self),
    {
        match self {
            NumInstances::NoInstances => PERF_NO_INSTANCES,
            NumInstances::N(n) => n as i32,
        }
    }
}

/// The attribute for a raw value.
pub open spec fn spec_num_instances(value: i32) -> Result<NumInstances, ()> {
    if value == PERF_NO_INSTANCES {
        Ok(NumInstances::NoInstances)
    } else if 0 <= value <= MAX_INSTANCES {
        Ok(NumInstances::N(value as u32))
    } else {
        Err(())
    }
}

/// The raw value of an attribute.
pub open spec fn raw_num_instances(n: NumInstances) -> i32 {
    match n {
        NumInstances::NoInstances => PERF_NO_INSTANCES,
        NumInstances::N(n) => n as i32,
    }
}

/// Law: a valid raw value is the raw value of its attribute, and an attribute of at most
/// 1024 instances is the attribute of its raw value.
pub proof fn lemma_num_instances_roundtrip(value: i32, n: NumInstances)
    ensures
        spec_num_instances(value) matches Ok(a) ==> raw_num_instances(a) == value,
        (n matches NumInstances::N(k) ==> k <= 1024) ==> spec_num_instances(raw_num_instances(n))
            == Ok::<NumInstances, ()>(n),
{
}

impl TryFrom<i32> for NumInstances {
    type Error = ();

    fn try_from(value: i32) -> (r: Result<Self, ()>) {
        Self::try_from_raw(value)
    }
}

impl vstd::std_specs::convert::TryFromSpecImpl<i32> for NumInstances {
    open spec fn obeys_try_from_spec() -> bool {
        true
    }

    open spec fn try_from_spec(v: i32) -> Result<NumInstances, ()> {
        spec_num_instances(v)
    }
}

impl From<NumInstances> for i32 {
    fn from(this: NumInstances) -> (r: i32) {
        this.into_raw()
    }
}

impl vstd::std_specs::convert::FromSpecImpl<NumInstances> for i32 {
    open spec fn obeys_from_spec() -> bool {
        true
    }

    open spec fn from_spec(v: NumInstances) -> i32 {
        raw_num_instances(v)
    }
}

/// What identifies an instance: its unique ID when it has one, its name otherwise.
pub enum InstanceKey {
    Id(i32),
    Name(Seq<u16>),
}

/// Just enough information to identify an instance among all instances of an object.
#[derive(Debug)]
pub struct InstanceId {
    /// `UniqueID` of the instance definition; `PERF_NO_UNIQUE_ID` when there is none, and
    /// then the name identifies the instance.
    unique_id: i32,
    /// Name of the instance, without nul terminator. Only one instance without name may
    /// exist in one object.
    name: Vec<u16>,
}

/// The text of UTF-16 code units, with unpaired surrogates replaced.
pub uninterp spec fn utf16_lossy(units: Seq<u16>) -> Seq<char>;

/// `U16Str::to_string_lossy` of widestring, which is `String::from_utf16_lossy`: the
/// text of the code units, unpaired surrogates replaced by U+FFFD. When no unit is a
/// surrogate, each unit is the character of that value.
#[verifier::external_body]
fn to_string_lossy(units: &[u16]) -> (r: String)
    ensures
        r@ == utf16_lossy(units@),
        (forall|i: int| 0 <= i < units@.len() ==> units@[i] < 0xD800 || units@[i] >= 0xE000)
            ==> r@ == units@.map_values(|u: u16| u as char),
{
    U16Str::from_slice(units).to_string_lossy()
}

/// The text of UTF-16 code units, with unpaired surrogates replaced.
pub fn utf16_to_string(units: &[u16]) -> (r: String)
    ensures
        r@ == utf16_lossy(units@),
        (forall|i: int| 0 <= i < units@.len() ==> units@[i] < 0xD800 || units@[i] >= 0xE000)
            ==> r@ == units@.map_values(|u: u16| u as char),
{
    to_string_lossy(units)
}

impl InstanceId {
    /// The unique ID, or `None` when there is none.
    pub open spec fn spec_unique_id(&self) -> Option<i32> {
        if self.id_raw() == PERF_NO_UNIQUE_ID {
            None
        } else {
            Some(self.id_raw())
        }
    }

    pub closed spec fn id_raw(&self) -> i32 {
        self.unique_id
    }

    pub closed spec fn name_view(&self) -> Seq<u16> {
        self.name@
    }

    /// What identifies the instance.
    pub open spec fn key(&self) -> InstanceKey {
        match self.spec_unique_id() {
            Some(id) => InstanceKey::Id(id),
            None => InstanceKey::Name(self.name_view()),
        }
    }

    /// An identity from raw parts.
    pub fn new(unique_id: i32, name: &[u16]) -> (r: Self)
        ensures
            r.id_raw() == unique_id,
            r.name_view() == name@,
    {
        InstanceId { unique_id, name: vstd::slice::slice_to_vec(name) }
    }

    /// The identity of the implicit instance of an object without instances.
    pub fn perf_no_instances() -> (r: Self)
        ensures
            r.id_raw() == PERF_NO_UNIQUE_ID,
            r.name_view() == Seq::<u16>::empty(),
    {
        let empty: [u16; 0] = [];
        assert(empty@ =~= Seq::<u16>::empty());
        InstanceId::new(PERF_NO_UNIQUE_ID, &empty)
    }

    /// `None` iff the unique ID is `PERF_NO_UNIQUE_ID`.
    pub fn unique_id(&self) -> (r: Option<i32>)
        ensures
            r == self.spec_unique_id(),
    {
        if self.unique_id == PERF_NO_UNIQUE_ID {
            None
        } else {
            Some(self.unique_id)
        }
    }

    /// The name of this instance.
    pub fn name(&self) -> (r: &[u16])
        ensures
            r@ == self.name_view(),
    {
        self.name.as_slice()
    }

    /// An equal copy.
    pub fn duplicate(&self) -> (r: Self)
        ensures
            r.id_raw() == self.id_raw(),
            r.name_view() == self.name_view(),
    {
        InstanceId::new(self.unique_id, self.name.as_slice())
    }

    /// How the instance is displayed: `PERF_NO_INSTANCES` for the implicit instance,
    /// its name otherwise.
    pub fn to_display_string(&self) -> (r: String)
        ensures
            self.key() == (InstanceKey::Name(Seq::<u16>::empty())) ==> r@ == "PERF_NO_INSTANCES"@,
            self.key() != (InstanceKey::Name(Seq::<u16>::empty())) ==> r@ == utf16_lossy(
                self.name_view(),
            ),
    {
        if self.same_as(&Self::perf_no_instances()) {
            String::from_str("PERF_NO_INSTANCES")
        } else {
            utf16_to_string(self.name.as_slice())
        }
    }

    /// What is hashed for the instance: the unique ID times 37 (wrapping) when there is
    /// one, the name otherwise.
    pub open spec fn hashed(&self) -> InstanceKey {
        match self.spec_unique_id() {
            Some(id) => InstanceKey::Id(id.wrapping_mul(37)),
            None => InstanceKey::Name(self.name_view()),
        }
    }

    /// What a hash of the instance is made of.
    pub fn hash_key(&self) -> (r: InstanceHashKey)
        ensures
            r@ == self.hashed(),
    {
        match self.unique_id() {
            Some(id) => InstanceHashKey::Id(id.wrapping_mul(37)),
            None => InstanceHashKey::Name(self.name.clone()),
        }
    }
}

/// What is hashed for an instance identity.
#[derive(Hash)]
pub enum InstanceHashKey {
    Id(i32),
    Name(Vec<u16>),
}

impl View for InstanceHashKey {
    type V = InstanceKey;

    open spec fn view(&self) -> InstanceKey {
        match self {
            InstanceHashKey::Id(h) => InstanceKey::Id(*h),
            InstanceHashKey::Name(n) => InstanceKey::Name(n@),
        }
    }
}

/// Whether two code unit sequences are equal.
fn same_units(a: &[u16], b: &[u16]) -> (r: bool)
    ensures
        r == (a@ == b@),
{
    if a.len() != b.len() {
        return false;
    }
    let mut i: usize = 0;
    while i < a.len()
        invariant
            a@.len() == b@.len(),
            i <= a@.len(),
            forall|j: int| 0 <= j < i ==> a@[j] == b@[j],
        decreases a.len() - i,
    {
        if a[i] != b[i] {
            return false;
        }
        i = i + 1;
    }
    assert(a@ =~= b@);
    true
}

impl InstanceId {
    /// Identities with unique IDs compare by ID; identities without compare by name; an
    /// identity with an ID never equals one without.
    pub fn same_as(&self, other: &Self) -> (r: bool)
        ensures
            r == (self.key() == other.key()),
    {
        let self_valid = self.unique_id().is_some();
        let other_valid = other.unique_id().is_some();
        if self_valid && other_valid {
            self.unique_id == other.unique_id
        } else if self_valid || other_valid {
            false
        } else {
            same_units(self.name.as_slice(), other.name.as_slice())
        }
    }
}

impl PartialEq for InstanceId {
    /// Compares as `same_as` does.
    fn eq(&self, other: &Self) -> (r: bool) {
        self.same_as(other)
    }
}

impl vstd::std_specs::cmp::PartialEqSpecImpl for InstanceId {
    open spec fn obeys_eq_spec() -> bool {
        true
    }

    open spec fn eq_spec(&self, other: &InstanceId) -> bool {
        self.key() == other.key()
    }
}

impl Eq for InstanceId {

}

impl std::hash::Hash for InstanceId {
    /// Hashes what `hash_key` gives, so that equal identities hash alike.
    fn hash<H: std::hash::Hasher>(&self, state: &mut H) {
        let key = self.hash_key();
        feed_hash_key(&key, state);
    }
}

/// Feeds a hash key to a hasher through the `Hash` impl that `derive` wrote for
/// `InstanceHashKey`; nothing is stated of the hasher's state afterwards.
#[verifier::external_body]
fn feed_hash_key<H: std::hash::Hasher>(key: &InstanceHashKey, state: &mut H) {
    std::hash::Hash::hash(key, state)
}

/// The lexicographic order of two code unit sequences: -1, 0 or 1.
pub open spec fn units_rank(a: Seq<u16>, b: Seq<u16>) -> int
    decreases a.len(),
{
    if a.len() == 0 {
        if b.len() == 0 {
            0
        } else {
            -1
        }
    } else if b.len() == 0 {
        1
    } else if a[0] < b[0] {
        -1
    } else if a[0] > b[0] {
        1
    } else {
        units_rank(a.drop_first(), b.drop_first())
    }
}

/// The ordering that a rank of -1, 0 or 1 stands for.
pub open spec fn ordering_of(r: int) -> Ordering {
    if r < 0 {
        Ordering::Less
    } else if r == 0 {
        Ordering::Equal
    } else {
        Ordering::Greater
    }
}

/// The lexicographic order of two code unit sequences.
pub open spec fn units_order(a: Seq<u16>, b: Seq<u16>) -> Ordering {
    ordering_of(units_rank(a, b))
}

/// The order of two integers.
pub open spec fn int_order(a: i32, b: i32) -> Ordering {
    if a < b {
        Ordering::Less
    } else if a == b {
        Ordering::Equal
    } else {
        Ordering::Greater
    }
}

/// How two identities compare: by ID when both have one, by name when neither has one;
/// an identity with an ID and one without do not compare.
pub open spec fn instance_partial_order(a: InstanceId, b: InstanceId) -> Option<Ordering> {
    match (a.spec_unique_id(), b.spec_unique_id()) {
        (Some(x), Some(y)) => Some(int_order(x, y)),
        (None, None) => Some(units_order(a.name_view(), b.name_view())),
        _ => None,
    }
}

/// The total order of identities: as `instance_partial_order`, and an identity with an ID
/// after one without.
pub open spec fn instance_order(a: InstanceId, b: InstanceId) -> Ordering {
    match instance_partial_order(a, b) {
        Some(o) => o,
        None => if a.spec_unique_id() is Some {
            Ordering::Greater
        } else {
            Ordering::Less
        },
    }
}

/// The lexicographic rank of two code unit sequences: -1, 0 or 1.
fn rank_units(a: &[u16], b: &[u16]) -> (r: i8)
    ensures
        r == units_rank(a@, b@),
{
    let n = a.len();
    let m = b.len();
    let mut i: usize = 0;
    assert(a@.skip(0) =~= a@);
    assert(b@.skip(0) =~= b@);
    while i < n && i < m
        invariant
            n == a@.len(),
            m == b@.len(),
            i <= n,
            i <= m,
            units_rank(a@, b@) == units_rank(a@.skip(i as int), b@.skip(i as int)),
        decreases n - i,
    {
        proof {
            assert(a@.skip(i as int)[0] == a@[i as int]);
            assert(b@.skip(i as int)[0] == b@[i as int]);
            assert(a@.skip(i as int).drop_first() =~= a@.skip(i + 1));
            assert(b@.skip(i as int).drop_first() =~= b@.skip(i + 1));
        }
        if a[i] < b[i] {
            return -1;
        }
        if a[i] > b[i] {
            return 1;
        }
        i = i + 1;
    }
    if i == n {
        if i == m {
            0
        } else {
            -1
        }
    } else {
        1
    }
}

/// The lexicographic order of two code unit sequences.
fn compare_units(a: &[u16], b: &[u16]) -> (r: Ordering)
    ensures
        r == units_order(a@, b@),
{
    let k = rank_units(a, b);
    if k < 0 {
        Ordering::Less
    } else if k == 0 {
        Ordering::Equal
    } else {
        Ordering::Greater
    }
}

/// The order of two 32-bit integers.
fn compare_i32(a: i32, b: i32) -> (r: Ordering)
    ensures
        r == int_order(a, b),
{
    if a < b {
        Ordering::Less
    } else if a == b {
        Ordering::Equal
    } else {
        Ordering::Greater
    }
}

impl PartialOrd for InstanceId {
    /// Identities with unique IDs compare by ID; identities without compare by name; an
    /// identity with an ID and one without do not compare.
    fn partial_cmp(&self, other: &Self) -> (r: Option<Ordering>) {
        let self_valid = self.unique_id().is_some();
        let other_valid = other.unique_id().is_some();
        if self_valid && other_valid {
            Some(compare_i32(self.unique_id, other.unique_id))
        } else if self_valid || other_valid {
            None
        } else {
            Some(compare_units(self.name.as_slice(), other.name.as_slice()))
        }
    }
}

impl vstd::std_specs::cmp::PartialOrdSpecImpl for InstanceId {
    open spec fn obeys_partial_cmp_spec() -> bool {
        true
    }

    open spec fn partial_cmp_spec(&self, other: &InstanceId) -> Option<Ordering> {
        instance_partial_order(*self, *other)
    }
}

impl InstanceId {
    /// The total order of identities: an identity with an ID comes after one without.
    pub fn cmp(&self, other: &Self) -> (r: Ordering)
        ensures
            r == instance_order(*self, *other),
    {
        match self.partial_cmp(other) {
            Some(o) => o,
            None => if self.unique_id().is_some() {
                Ordering::Greater
            } else {
                Ordering::Less
            },
        }
    }
}

/// Swapping the sequences negates their rank, and the rank is zero only for equal
/// sequences.
proof fn lemma_units_rank_antisymmetric(a: Seq<u16>, b: Seq<u16>)
    ensures
        units_rank(a, b) == -units_rank(b, a),
        (units_rank(a, b) == 0) == (a == b),
    decreases a.len(),
{
    if a.len() == 0 && b.len() == 0 {
        assert(a =~= b);
    } else if a.len() > 0 && b.len() > 0 && a[0] == b[0] {
        let (ta, tb) = (a.drop_first(), b.drop_first());
        lemma_units_rank_antisymmetric(ta, tb);
        if ta == tb {
            assert forall|i: int| 0 <= i < a.len() implies a[i] == b[i] by {
                if i > 0 {
                    assert(a[i] == ta[i - 1]);
                    assert(b[i] == tb[i - 1]);
                }
            }
            assert(a =~= b);
        }
    }
}

/// The lexicographic order of code unit sequences is transitive, strictly so when one of
/// the steps is strict.
proof fn lemma_units_rank_transitive(a: Seq<u16>, b: Seq<u16>, c: Seq<u16>)
    requires
        units_rank(a, b) <= 0,
        units_rank(b, c) <= 0,
    ensures
        units_rank(a, c) <= 0,
        units_rank(a, b) < 0 || units_rank(b, c) < 0 ==> units_rank(a, c) < 0,
    decreases a.len(),
{
    if a.len() > 0 && b.len() > 0 && c.len() > 0 && a[0] == b[0] && b[0] == c[0] {
        lemma_units_rank_transitive(a.drop_first(), b.drop_first(), c.drop_first());
    }
}

/// Law: the order of instance identities is total, and consistent with their equality:
/// two identities compare equal exactly when they have the same key, swapping them
/// reverses their order, and the order is transitive.
pub proof fn lemma_instance_order_total(a: InstanceId, b: InstanceId, c: InstanceId)
    ensures
        (instance_order(a, b) == Ordering::Equal) == (a.key() == b.key()),
        (instance_order(a, b) == Ordering::Less) == (instance_order(b, a) == Ordering::Greater),
        instance_order(a, b) != Ordering::Greater && instance_order(b, c) != Ordering::Greater
            ==> instance_order(a, c) != Ordering::Greater,
        instance_order(a, b) == Ordering::Less && instance_order(b, c) != Ordering::Greater
            ==> instance_order(a, c) == Ordering::Less,
        instance_order(a, b) != Ordering::Greater && instance_order(b, c) == Ordering::Less
            ==> instance_order(a, c) == Ordering::Less,
{
    lemma_units_rank_antisymmetric(a.name_view(), b.name_view());
    lemma_units_rank_antisymmetric(b.name_view(), c.name_view());
    lemma_units_rank_antisymmetric(a.name_view(), c.name_view());
    if units_rank(a.name_view(), b.name_view()) <= 0 && units_rank(b.name_view(), c.name_view()) <= 0 {
        lemma_units_rank_transitive(a.name_view(), b.name_view(), c.name_view());
    }
}

/// Law: equality of instance identities is an equivalence, and equal identities have
/// equal hash keys.
pub proof fn lemma_instance_eq(a: InstanceId, b: InstanceId, c: InstanceId)
    ensures
        a.key() == a.key(),
        a.key() == b.key() ==> b.key() == a.key(),
        a.key() == b.key() && b.key() == c.key() ==> a.key() == c.key(),
        a.key() == b.key() ==> a.hashed() == b.hashed(),
{
}

/// Just enough information to identify a counter among all counters of an object.
#[derive(Copy, Clone, Debug, Eq, PartialEq, Hash, Structural)]
pub struct CounterId {
    /// `CounterNameTitleIndex` before adding the index of the first counter: the index
    /// defined in the header or symbols file.
    pub name_index_offset: u32,
}

impl CounterId {
    pub fn new(name_index_offset: u32) -> (r: Self)
        ensures
            r.name_index_offset == name_index_offset,
    {
        CounterId { name_index_offset }
    }
}

impl From<u32> for CounterId {
    fn from(value: u32) -> (r: Self) {
        CounterId::new(value)
    }
}

impl vstd::std_specs::convert::FromSpecImpl<u32> for CounterId {
    open spec fn obeys_from_spec() -> bool {
        true
    }

    open spec fn from_spec(v: u32) -> CounterId {
        CounterId { name_index_offset: v }
    }
}

/// What identifies a value of an object: its counter and its instance.
pub type ValueKey = (u32, InstanceKey);

/// The values of an object's counters, by counter and instance.
pub struct ObjectData {
    entries: Vec<(CounterId, InstanceId, CounterValue)>,
}

/// The map of a list of entries; later entries win.
pub open spec fn entries_map(s: Seq<(CounterId, InstanceId, CounterValue)>) -> Map<
    ValueKey,
    CounterValueView,
>
    decreases s.len(),
{
    if s.len() == 0 {
        Map::empty()
    } else {
        entries_map(s.drop_last()).insert(
            (s.last().0.name_index_offset, s.last().1.key()),
            s.last().2@,
        )
    }
}

impl View for ObjectData {
    type V = Map<ValueKey, CounterValueView>;

    closed spec fn view(&self) -> Map<ValueKey, CounterValueView> {
        entries_map(self.entries@)
    }
}

/// The key of an entry.
pub open spec fn entry_key(e: (CounterId, InstanceId, CounterValue)) -> ValueKey {
    (e.0.name_index_offset, e.1.key())
}

proof fn lemma_entries_map_get(s: Seq<(CounterId, InstanceId, CounterValue)>, i: int)
    requires
        0 <= i < s.len(),
        forall|j: int| i < j < s.len() ==> entry_key(s[j]) != entry_key(s[i]),
    ensures
        entries_map(s).contains_key(entry_key(s[i])),
        entries_map(s)[entry_key(s[i])] == s[i].2@,
    decreases s.len(),
{
    if i < s.len() - 1 {
        lemma_entries_map_get(s.drop_last(), i);
    }
}

proof fn lemma_entries_map_absent(s: Seq<(CounterId, InstanceId, CounterValue)>, k: ValueKey)
    requires
        forall|j: int| 0 <= j < s.len() ==> entry_key(s[j]) != k,
    ensures
        !entries_map(s).contains_key(k),
    decreases s.len(),
{
    if s.len() > 0 {
        lemma_entries_map_absent(s.drop_last(), k);
    }
}

proof fn lemma_entries_map_update(
    s: Seq<(CounterId, InstanceId, CounterValue)>,
    i: int,
    e: (CounterId, InstanceId, CounterValue),
)
    requires
        0 <= i < s.len(),
        entry_key(e) == entry_key(s[i]),
        forall|j: int| 0 <= j < s.len() && j != i ==> entry_key(s[j]) != entry_key(s[i]),
    ensures
        entries_map(s.update(i, e)) == entries_map(s).insert(entry_key(e), e.2@),
    decreases s.len(),
{
    let t = s.update(i, e);
    if i == s.len() - 1 {
        assert(t.drop_last() =~= s.drop_last());
        assert(entries_map(t) =~= entries_map(s).insert(entry_key(e), e.2@));
    } else {
        assert(t.drop_last() =~= s.drop_last().update(i, e));
        lemma_entries_map_update(s.drop_last(), i, e);
        assert(entries_map(t) =~= entries_map(s).insert(entry_key(e), e.2@));
    }
}

impl ObjectData {
    /// No two entries share a key.
    pub closed spec fn wf(&self) -> bool {
        forall|i: int, j: int|
            0 <= i < j < self.entries@.len() ==> entry_key(self.entries@[i]) != entry_key(
                self.entries@[j],
            )
    }

    pub fn new() -> (r: Self)
        ensures
            r@ == Map::<ValueKey, CounterValueView>::empty(),
            r.wf(),
    {
        ObjectData { entries: Vec::new() }
    }

    fn find(&self, counter_id: CounterId, instance_id: &InstanceId) -> (r: Option<usize>)
        requires
            self.wf(),
        ensures
            match r {
                Some(i) => i < self.entries@.len() && entry_key(self.entries@[i as int]) == (
                    counter_id.name_index_offset,
                    instance_id.key(),
                ),
                None => forall|j: int|
                    0 <= j < self.entries@.len() ==> entry_key(self.entries@[j]) != (
                        counter_id.name_index_offset,
                        instance_id.key(),
                    ),
            },
    {
        let mut i: usize = 0;
        while i < self.entries.len()
            invariant
                i <= self.entries@.len(),
                forall|j: int|
                    0 <= j < i ==> entry_key(self.entries@[j]) != (
                        counter_id.name_index_offset,
                        instance_id.key(),
                    ),
            decreases self.entries.len() - i,
        {
            let entry = &self.entries[i];
            if entry.0.name_index_offset == counter_id.name_index_offset && entry.1.same_as(instance_id) {
                return Some(i);
            }
            i = i + 1;
        }
        None
    }

    /// The value of a counter for an instance, if set.
    pub fn get<'a>(&'a self, counter_id: CounterId, instance_id: InstanceId) -> (r: Option<
        CounterVal<'a>,
    >)
        requires
            self.wf(),
        ensures
            match r {
                Some(v) => self@.contains_key((counter_id.name_index_offset, instance_id.key()))
                    && self@[(counter_id.name_index_offset, instance_id.key())] == v@,
                None => !self@.contains_key((counter_id.name_index_offset, instance_id.key())),
            },
    {
        match self.find(counter_id, &instance_id) {
            Some(i) => {
                proof {
                    lemma_entries_map_get(self.entries@, i as int);
                }
                Some(self.entries[i].2.borrow())
            },
            None => {
                proof {
                    lemma_entries_map_absent(
                        self.entries@,
                        (counter_id.name_index_offset, instance_id.key()),
                    );
                }
                None
            },
        }
    }

    /// Set the value of a counter for an instance.
    pub fn set(&mut self, counter_id: CounterId, instance_id: InstanceId, value: CounterValue)
        requires
            old(self).wf(),
        ensures
            final(self).wf(),
            final(self)@ == old(self)@.insert(
                (counter_id.name_index_offset, instance_id.key()),
                value@,
            ),
    {
        let ghost e = (counter_id, instance_id, value);
        match self.find(counter_id, &instance_id) {
            Some(i) => {
                proof {
                    lemma_entries_map_update(self.entries@, i as int, e);
                }
                self.entries.set(i, (counter_id, instance_id, value));
                proof {
                    assert(self.entries@ =~= old(self).entries@.update(i as int, e));
                }
            },
            None => {
                self.entries.push((counter_id, instance_id, value));
                proof {
                    assert(self.entries@.drop_last() =~= old(self).entries@);
                }
            },
        }
    }

    /// An equal copy.
    pub fn duplicate(&self) -> (r: Self)
        requires
            self.wf(),
        ensures
            r.wf(),
            r@ == self@,
    {
        let mut entries: Vec<(CounterId, InstanceId, CounterValue)> = Vec::new();
        let mut i: usize = 0;
        while i < self.entries.len()
            invariant
                i <= self.entries@.len(),
                entries@.len() == i,
                forall|j: int|
                    0 <= j < i ==> entry_key(#[trigger] entries@[j]) == entry_key(self.entries@[j])
                        && entries@[j].2@ == self.entries@[j].2@,
            decreases self.entries.len() - i,
        {
            let entry = &self.entries[i];
            entries.push((entry.0, entry.1.duplicate(), entry.2.duplicate()));
            i = i + 1;
        }
        let r = ObjectData { entries };
        proof {
            lemma_same_entries_map(r.entries@, self.entries@);
        }
        r
    }
}

proof fn lemma_same_entries_map(
    a: Seq<(CounterId, InstanceId, CounterValue)>,
    b: Seq<(CounterId, InstanceId, CounterValue)>,
)
    requires
        a.len() == b.len(),
        forall|j: int| 0 <= j < a.len() ==> entry_key(#[trigger] a[j]) == entry_key(b[j]) && a[j].2@
            == b[j].2@,
    ensures
        entries_map(a) == entries_map(b),
    decreases a.len(),
{
    if a.len() > 0 {
        lemma_same_entries_map(a.drop_last(), b.drop_last());
        assert(entry_key(a[a.len() - 1]) == entry_key(b[b.len() - 1]));
    }
}

/// Law: after a value is set, it is what is read for its counter and instance, and every
/// other counter and instance reads as before.
pub proof fn lemma_read_after_write(
    before: Map<ValueKey, CounterValueView>,
    k: ValueKey,
    v: CounterValueView,
    other: ValueKey,
)
    ensures
        before.insert(k, v).contains_key(k) && before.insert(k, v)[k] == v,
        other != k ==> before.insert(k, v).contains_key(other) == before.contains_key(other)
            && before.insert(k, v).get(other) == before.get(other),
{
}

} // verus!
