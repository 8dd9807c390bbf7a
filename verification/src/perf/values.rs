//! Values of performance counters.
use vstd::prelude::*;
use crate::perf::nom::{PerfCounterBlock, PerfCounterDefinition};
use crate::perf::raw::{read_u32, read_u64, u32_at, u64_at, PERF_COUNTER_DEFINITION};
use crate::perf::types::{
    counter_type_from_raw, definition_valid, size_from_raw, CounterType, CounterTypeDefinition,
    Size, Text,
};

verus! {

/// Owned value of a counter.
#[derive(Clone, Debug)]
pub enum CounterValue {
    Dword(u32),
    Large(u64),
    /// UTF-16 text, without its nul terminator.
    TextUnicode(Vec<u16>),
    TextAscii(String),
    Zero,
}

/// Borrowed value of a counter: it is to `CounterValue` as a `str` is to a `String`.
#[derive(Clone, Copy, Debug)]
pub enum CounterVal<'a> {
    Dword(u32),
    Large(u64),
    TextUnicode(&'a [u16]),
    TextAscii(&'a str),
    Zero,
}

/// Why a counter value could not be read or written.
#[derive(Clone, Copy, Debug, PartialEq, Eq, Hash, Structural)]
pub enum ValueError {
    BadSize,
    NoData,
    StringFormat,
    UnknownType,
}

/// The mathematical value of a counter value.
pub enum CounterValueView {
    Dword(u32),
    Large(u64),
    TextUnicode(Seq<u16>),
    TextAscii(Seq<char>),
    Zero,
}

impl View for CounterValue {
    type V = CounterValueView;

    open spec fn view(&self) -> CounterValueView {
        match self {
            CounterValue::Dword(v) => CounterValueView::Dword(*v),
            CounterValue::Large(v) => CounterValueView::Large(*v),
            CounterValue::TextUnicode(s) => CounterValueView::TextUnicode(s@),
            CounterValue::TextAscii(s) => CounterValueView::TextAscii(s@),
            CounterValue::Zero => CounterValueView::Zero,
        }
    }
}

impl<'a> View for CounterVal<'a> {
    type V = CounterValueView;

    open spec fn view(&self) -> CounterValueView {
        match self {
            CounterVal::Dword(v) => CounterValueView::Dword(*v),
            CounterVal::Large(v) => CounterValueView::Large(*v),
            CounterVal::TextUnicode(s) => CounterValueView::TextUnicode(s@),
            CounterVal::TextAscii(s) => CounterValueView::TextAscii(s@),
            CounterVal::Zero => CounterValueView::Zero,
        }
    }
}

/// The little-endian bytes of a 32-bit value.
pub open spec fn le_bytes_u32(v: u32) -> Seq<u8> {
    seq![(v & 0xff) as u8, ((v >> 8u32) & 0xff) as u8, ((v >> 16u32) & 0xff) as u8, ((v >> 24u32) & 0xff) as u8]
}

/// The little-endian bytes of a 64-bit value.
pub open spec fn le_bytes_u64(v: u64) -> Seq<u8> {
    le_bytes_u32((v & 0xffff_ffff) as u32) + le_bytes_u32((v >> 32u64) as u32)
}

/// The little-endian bytes of a 32-bit value.
pub fn u32_to_le_bytes(v: u32) -> (r: [u8; 4])
    ensures
        r@ == le_bytes_u32(v),
{
    let r = [(v & 0xff) as u8, ((v >> 8) & 0xff) as u8, ((v >> 16) & 0xff) as u8, ((v >> 24) & 0xff) as u8];
    assert(r@ =~= le_bytes_u32(v));
    r
}

/// The bytes a value is written as: four for a double word, eight for a large value,
/// none for zero. Texts cannot be written.
pub open spec fn value_bytes(v: CounterValueView) -> Seq<u8> {
    match v {
        CounterValueView::Dword(d) => le_bytes_u32(d),
        CounterValueView::Large(q) => le_bytes_u64(q),
        _ => seq![],
    }
}

impl CounterValue {
    pub fn borrow<'a>(&'a self) -> (r: CounterVal<'a>)
        ensures
            r@ == self@,
    {
        match self {
            CounterValue::Dword(value) => CounterVal::Dword(*value),
            CounterValue::Large(value) => CounterVal::Large(*value),
            CounterValue::TextUnicode(string) => CounterVal::TextUnicode(string.as_slice()),
            CounterValue::TextAscii(string) => CounterVal::TextAscii(string.as_str()),
            CounterValue::Zero => CounterVal::Zero,
        }
    }

    /// An equal copy.
    pub fn duplicate(&self) -> (r: Self)
        ensures
            r@ == self@,
    {
        self.borrow().to_owned()
    }
}

impl<'a> CounterVal<'a> {
    pub fn to_owned(&self) -> (r: CounterValue)
        ensures
            r@ == self@,
    {
        match *self {
            CounterVal::Dword(value) => CounterValue::Dword(value),
            CounterVal::Large(value) => CounterValue::Large(value),
            CounterVal::TextUnicode(s) => CounterValue::TextUnicode(vstd::slice::slice_to_vec(s)),
            CounterVal::TextAscii(s) => CounterValue::TextAscii(s.to_owned()),
            CounterVal::Zero => CounterValue::Zero,
        }
    }

    /// Write the value's bytes into `buffer`, which must be exactly as long. Texts cannot
    /// be written.
    pub fn write(&self, buffer: &mut [u8]) -> (r: Result<(), ValueError>)
        requires
            !(self@ is TextUnicode) && !(self@ is TextAscii),
        ensures
            r is Ok <==> old(buffer)@.len() == value_bytes(self@).len(),
            r is Ok ==> final(buffer)@ == value_bytes(self@),
            r is Err ==> r == Err::<(), ValueError>(ValueError::BadSize) && final(buffer)@ == old(buffer)@,
    {
        match *self {
            CounterVal::Dword(dword) => {
                let bytes = u32_to_le_bytes(dword);
                checked_write(&bytes, buffer)
            },
            CounterVal::Large(qword) => {
                let low = u32_to_le_bytes((qword & 0xffff_ffff) as u32);
                let high = u32_to_le_bytes((qword >> 32) as u32);
                let bytes = [low[0], low[1], low[2], low[3], high[0], high[1], high[2], high[3]];
                assert(bytes@ =~= le_bytes_u64(qword));
                checked_write(&bytes, buffer)
            },
            CounterVal::Zero => {
                let empty: [u8; 0] = [];
                assert(empty@ =~= Seq::<u8>::empty());
                checked_write(&empty, buffer)
            },
            _ => Err(ValueError::UnknownType),
        }
    }
}

/// Copy `src` into `dst`, which must be exactly as long.
fn checked_write(src: &[u8], dst: &mut [u8]) -> (r: Result<(), ValueError>)
    ensures
        r is Ok <==> src@.len() == old(dst)@.len(),
        r is Ok ==> final(dst)@ == src@,
        r is Err ==> r == Err::<(), ValueError>(ValueError::BadSize) && final(dst)@ == old(dst)@,
{
    if src.len() != dst.len() {
        return Err(ValueError::BadSize);
    }
    let mut i: usize = 0;
    while i < src.len()
        invariant
            src@.len() == dst@.len(),
            i <= src@.len(),
            forall|j: int| 0 <= j < i ==> dst@[j] == src@[j],
        decreases src.len() - i,
    {
        dst[i] = src[i];
        i = i + 1;
    }
    assert(dst@ =~= src@);
    Ok(())
}

/// The bytes of a counter's value in the bytes of a counter block: `CounterSize` bytes at
/// `CounterOffset`, if the block holds them.
pub open spec fn spec_slice(def: PERF_COUNTER_DEFINITION, data: Seq<u8>) -> Option<Seq<u8>> {
    let off = def.CounterOffset as int;
    let len = def.CounterSize as int;
    if off + len <= data.len() {
        Some(data.subrange(off, off + len))
    } else {
        None
    }
}

/// The bytes of the counter's value in the block, if the block holds them.
pub fn get_slice<'a>(def: &PerfCounterDefinition, block: &'a PerfCounterBlock) -> (r: Option<&'a [u8]>)
    ensures
        match r {
            Some(s) => spec_slice(def.raw, block.bytes@) == Some(s@),
            None => spec_slice(def.raw, block.bytes@) is None,
        },
{
    let len = def.raw.CounterSize as u64;
    let offset = def.raw.CounterOffset as u64;
    let data = block.data();
    if offset + len > data.len() as u64 {
        return None;
    }
    Some(vstd::slice::slice_subrange(data, offset as usize, (offset + len) as usize))
}

/// `s` without its trailing nul bytes.
pub open spec fn trim_nuls(s: Seq<u8>) -> Seq<u8>
    decreases s.len(),
{
    if s.len() > 0 && s.last() == 0 {
        trim_nuls(s.drop_last())
    } else {
        s
    }
}

/// The characters of UTF-8 bytes, if they are valid UTF-8.
pub uninterp spec fn utf8_text(bytes: Seq<u8>) -> Option<Seq<char>>;

/// The characters of UTF-8 bytes, if they are valid UTF-8: bytes below 128 are the ASCII
/// characters of the same codes.
pub open spec fn utf8_decoded(bytes: Seq<u8>) -> Option<Seq<char>> {
    if forall|i: int| 0 <= i < bytes.len() ==> #[trigger] bytes[i] < 128 {
        Some(bytes.map_values(|b: u8| b as char))
    } else {
        utf8_text(bytes)
    }
}

/// Calls `std::str::from_utf8`: its result is named `utf8_text`; bytes below 128 are the
/// ASCII characters of the same codes, as std documents.
#[verifier::external_body]
fn text_from_utf8(bytes: &[u8]) -> (r: Option<String>)
    ensures
        r matches Some(s) ==> utf8_text(bytes@) == Some(s@),
        r is None ==> utf8_text(bytes@) is None,
        r is None ==> exists|i: int| 0 <= i < bytes@.len() && bytes@[i] >= 128,
        r matches Some(s) ==> ((forall|i: int| 0 <= i < bytes@.len() ==> bytes@[i] < 128) ==> s@
            == bytes@.map_values(|b: u8| b as char)),
{
    match std::str::from_utf8(bytes) {
        Ok(text) => Some(text.to_string()),
        Err(_) => None,
    }
}

/// Whether reading the value stops the program: a UTF-16 text of a nonzero, even number of
/// bytes.
pub open spec fn value_read_stops(def: PERF_COUNTER_DEFINITION, data: Seq<u8>) -> bool {
    &&& size_from_raw(def.CounterType) == Size::Var
    &&& counter_type_from_raw(def.CounterType) == Some(CounterType::Text(Text::Unicode))
    &&& spec_slice(def, data) matches Some(s) && s.len() > 0 && s.len() % 2 == 0
}

/// The value of a counter in the bytes of a counter block: a double word or a large value
/// of exactly four or eight bytes, zero, an empty UTF-16 text, or an ASCII text without
/// its trailing nuls.
pub open spec fn spec_value(def: PERF_COUNTER_DEFINITION, data: Seq<u8>) -> Result<CounterValueView, ValueError> {
    match spec_slice(def, data) {
        None => Err(ValueError::BadSize),
        Some(s) => match size_from_raw(def.CounterType) {
            Size::Dword => if s.len() == 4 {
                Ok(CounterValueView::Dword(u32_at(s, 0)))
            } else {
                Err(ValueError::BadSize)
            },
            Size::Large => if s.len() == 8 {
                Ok(CounterValueView::Large(u64_at(s, 0)))
            } else {
                Err(ValueError::BadSize)
            },
            Size::Zero => Ok(CounterValueView::Zero),
            Size::Var => match counter_type_from_raw(def.CounterType) {
                Some(CounterType::Text(Text::Unicode)) => if s.len() % 2 != 0 {
                    Err(ValueError::BadSize)
                } else {
                    Ok(CounterValueView::TextUnicode(seq![]))
                },
                Some(CounterType::Text(Text::Ascii)) => match utf8_decoded(trim_nuls(s)) {
                    Some(t) => Ok(CounterValueView::TextAscii(t)),
                    None => Err(ValueError::StringFormat),
                },
                _ => Err(ValueError::UnknownType),
            },
        },
    }
}

impl CounterValue {
    /// The value of a counter in a counter block.
    pub fn try_get(def: &PerfCounterDefinition, block: &PerfCounterBlock) -> (r: Result<Self, ValueError>)
        requires
            definition_valid(def.raw.CounterType),
            !value_read_stops(def.raw, block.bytes@),
        ensures
            match r {
                Ok(v) => spec_value(def.raw, block.bytes@) == Ok::<CounterValueView, ValueError>(v@),
                Err(e) => spec_value(def.raw, block.bytes@) == Err::<CounterValueView, ValueError>(e),
            },
    {
        get_value(def, block)
    }
}

fn get_value(def: &PerfCounterDefinition, block: &PerfCounterBlock) -> (r: Result<CounterValue, ValueError>)
    requires
        definition_valid(def.raw.CounterType),
        !value_read_stops(def.raw, block.bytes@),
    ensures
        match r {
            Ok(v) => spec_value(def.raw, block.bytes@) == Ok::<CounterValueView, ValueError>(v@),
            Err(e) => spec_value(def.raw, block.bytes@) == Err::<CounterValueView, ValueError>(e),
        },
{
    let typ = CounterTypeDefinition::from_raw(def.raw.CounterType).unwrap();
    let slice = match get_slice(def, block) {
        Some(s) => s,
        None => return Err(ValueError::BadSize),
    };
    let len = slice.len();
    match typ.size() {
        Size::Dword => {
            if len != 4 {
                return Err(ValueError::BadSize);
            }
            Ok(CounterValue::Dword(read_u32(slice, 0)))
        },
        Size::Large => {
            if len != 8 {
                return Err(ValueError::BadSize);
            }
            Ok(CounterValue::Large(read_u64(slice, 0)))
        },
        Size::Zero => Ok(CounterValue::Zero),
        Size::Var => {
            match typ.counter_type() {
                CounterType::Text(Text::Unicode) => {
                    if len % 2 != 0 {
                        return Err(ValueError::BadSize);
                    }
                    Ok(CounterValue::TextUnicode(Vec::new()))
                },
                CounterType::Text(Text::Ascii) => {
                    let mut end: usize = len;
                    assert(slice@.take(end as int) =~= slice@);
                    while end > 0 && slice[end - 1] == 0
                        invariant
                            end <= slice@.len(),
                            trim_nuls(slice@.take(end as int)) == trim_nuls(slice@),
                        decreases end,
                    {
                        proof {
                            assert(slice@.take(end - 1) =~= slice@.take(end as int).drop_last());
                        }
                        end = end - 1;
                    }
                    proof {
                        assert(trim_nuls(slice@.take(end as int)) == slice@.take(end as int));
                    }
                    let trimmed = vstd::slice::slice_subrange(slice, 0, end);
                    assert(trimmed@ =~= slice@.take(end as int));
                    match text_from_utf8(trimmed) {
                        Some(text) => Ok(CounterValue::TextAscii(text)),
                        None => Err(ValueError::StringFormat),
                    }
                },
                _ => Err(ValueError::UnknownType),
            }
        },
    }
}

} // verus!
