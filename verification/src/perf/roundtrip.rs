//! What a provider writes, the parsers read back: the bytes of an object laid out by the
//! provider parse into its header, its counter definitions, and its instances and counter
//! blocks.
#![allow(non_snake_case)]
use vstd::prelude::*;
use crate::format::has_no_nul;
use crate::perf::nom::{
    lemma_first_nul_at, spec_counter_block, spec_counter_definitions, spec_instance_definition,
    spec_instance_pairs, spec_object_data, spec_object_type, spec_u16cstr, units_at, CounterBlockView,
    InstanceView, ObjectDataView, ObjectTypeView,
};
use crate::perf::provide::{
    block_fits, block_image, counters_block, counters_fit, value_fits, PerfCounterDefinitionTemplate, concat_bytes, definitions_bytes, object_content, object_image, instance_image, instance_image_fits, overwrite,
    utf16_bytes, zeros,
};
use crate::perf::types::{size_from_raw, Size};
use crate::perf::values::{le_bytes_u32, le_bytes_u64, spec_slice, spec_value, value_bytes, CounterValue, CounterValueView, ValueError};
use crate::perf::raw::{
    counter_block_bytes, counter_definition_bytes, instance_definition_bytes, le32, le64,
    lemma_u32_roundtrip, lemma_u64_roundtrip, object_type_bytes, spec_read_counter_definition,
    le_number, le_number64, lemma_counter_definition_layout, lemma_instance_definition_layout,
    lemma_object_type_layout,
    spec_read_instance_definition, spec_read_object_type, u32_at, u64_at,
    PERF_COUNTER_BLOCK, PERF_COUNTER_DEFINITION, PERF_INSTANCE_DEFINITION,
    PERF_INSTANCE_DEFINITION_SIZE, PERF_OBJECT_TYPE,
};

verus! {

/// A 32-bit field whose bytes lie at `off` in `bytes`, which lie at `pos` in `b`, reads
/// back.
proof fn lemma_u32_field(b: Seq<u8>, pos: int, bytes: Seq<u8>, off: int, v: u32)
    requires
        0 <= pos,
        pos + bytes.len() <= b.len(),
        b.subrange(pos, pos + bytes.len()) == bytes,
        0 <= off,
        off + 4 <= bytes.len(),
        bytes.subrange(off, off + 4) == le32(v),
    ensures
        u32_at(b, pos + off) == v,
{
    assert(b.subrange(pos + off, pos + off + 4) =~= le32(v)) by {
        assert forall|i: int| 0 <= i < 4 implies b.subrange(pos + off, pos + off + 4)[i] == le32(v)[i] by {
            assert(b.subrange(pos, pos + bytes.len())[off + i] == bytes[off + i]);
            assert(bytes.subrange(off, off + 4)[i] == bytes[off + i]);
        }
    }
    lemma_u32_roundtrip(v, b, pos + off);
}

/// A 64-bit field whose bytes lie at `off` in `bytes`, which lie at `pos` in `b`, reads
/// back.
proof fn lemma_u64_field(b: Seq<u8>, pos: int, bytes: Seq<u8>, off: int, v: u64)
    requires
        0 <= pos,
        pos + bytes.len() <= b.len(),
        b.subrange(pos, pos + bytes.len()) == bytes,
        0 <= off,
        off + 8 <= bytes.len(),
        bytes.subrange(off, off + 8) == le64(v),
    ensures
        u64_at(b, pos + off) == v,
{
    assert(b.subrange(pos + off, pos + off + 8) =~= le64(v)) by {
        assert forall|i: int| 0 <= i < 8 implies b.subrange(pos + off, pos + off + 8)[i] == le64(v)[i] by {
            assert(b.subrange(pos, pos + bytes.len())[off + i] == bytes[off + i]);
            assert(bytes.subrange(off, off + 8)[i] == bytes[off + i]);
        }
    }
    lemma_u64_roundtrip(v, b, pos + off);
}

proof fn lemma_i32_cast(x: i32)
    ensures
        ((x as u32) as i32) == x,
{
    assert(((x as u32) as i32) == x) by (bit_vector);
}

proof fn lemma_i64_cast(x: i64)
    ensures
        ((x as u64) as i64) == x,
{
    assert(((x as u64) as i64) == x) by (bit_vector);
}

/// The header of an object reads back from its bytes.
pub proof fn lemma_read_object_type(b: Seq<u8>, pos: int, o: PERF_OBJECT_TYPE)
    requires
        0 <= pos,
        pos + 64 <= b.len(),
        b.subrange(pos, pos + 64) == object_type_bytes(o),
    ensures
        spec_read_object_type(b, pos) == o,
{
    let bytes = object_type_bytes(o);
    assert(bytes.len() == 64);
    assert(bytes.subrange(0, 4) =~= le32(o.TotalByteLength));
    assert(bytes.subrange(4, 8) =~= le32(o.DefinitionLength));
    assert(bytes.subrange(8, 12) =~= le32(o.HeaderLength));
    assert(bytes.subrange(12, 16) =~= le32(o.ObjectNameTitleIndex));
    assert(bytes.subrange(16, 20) =~= le32(o.ObjectNameTitle));
    assert(bytes.subrange(20, 24) =~= le32(o.ObjectHelpTitleIndex));
    assert(bytes.subrange(24, 28) =~= le32(o.ObjectHelpTitle));
    assert(bytes.subrange(28, 32) =~= le32(o.DetailLevel));
    assert(bytes.subrange(32, 36) =~= le32(o.NumCounters));
    assert(bytes.subrange(36, 40) =~= le32(o.DefaultCounter as u32));
    assert(bytes.subrange(40, 44) =~= le32(o.NumInstances as u32));
    assert(bytes.subrange(44, 48) =~= le32(o.CodePage));
    assert(bytes.subrange(48, 56) =~= le64(o.PerfTime as u64));
    assert(bytes.subrange(56, 64) =~= le64(o.PerfFreq as u64));
    lemma_u32_field(b, pos, bytes, 0, o.TotalByteLength);
    lemma_u32_field(b, pos, bytes, 4, o.DefinitionLength);
    lemma_u32_field(b, pos, bytes, 8, o.HeaderLength);
    lemma_u32_field(b, pos, bytes, 12, o.ObjectNameTitleIndex);
    lemma_u32_field(b, pos, bytes, 16, o.ObjectNameTitle);
    lemma_u32_field(b, pos, bytes, 20, o.ObjectHelpTitleIndex);
    lemma_u32_field(b, pos, bytes, 24, o.ObjectHelpTitle);
    lemma_u32_field(b, pos, bytes, 28, o.DetailLevel);
    lemma_u32_field(b, pos, bytes, 32, o.NumCounters);
    lemma_u32_field(b, pos, bytes, 36, o.DefaultCounter as u32);
    lemma_u32_field(b, pos, bytes, 40, o.NumInstances as u32);
    lemma_u32_field(b, pos, bytes, 44, o.CodePage);
    lemma_u64_field(b, pos, bytes, 48, o.PerfTime as u64);
    lemma_u64_field(b, pos, bytes, 56, o.PerfFreq as u64);
    lemma_i32_cast(o.DefaultCounter);
    lemma_i32_cast(o.NumInstances);
    lemma_i64_cast(o.PerfTime);
    lemma_i64_cast(o.PerfFreq);
}

/// A counter definition reads back from its bytes.
pub proof fn lemma_read_counter_definition(b: Seq<u8>, pos: int, c: PERF_COUNTER_DEFINITION)
    requires
        0 <= pos,
        pos + 40 <= b.len(),
        b.subrange(pos, pos + 40) == counter_definition_bytes(c),
    ensures
        spec_read_counter_definition(b, pos) == c,
{
    let bytes = counter_definition_bytes(c);
    assert(bytes.len() == 40);
    assert(bytes.subrange(0, 4) =~= le32(c.ByteLength));
    assert(bytes.subrange(4, 8) =~= le32(c.CounterNameTitleIndex));
    assert(bytes.subrange(8, 12) =~= le32(c.CounterNameTitle));
    assert(bytes.subrange(12, 16) =~= le32(c.CounterHelpTitleIndex));
    assert(bytes.subrange(16, 20) =~= le32(c.CounterHelpTitle));
    assert(bytes.subrange(20, 24) =~= le32(c.DefaultScale as u32));
    assert(bytes.subrange(24, 28) =~= le32(c.DetailLevel));
    assert(bytes.subrange(28, 32) =~= le32(c.CounterType));
    assert(bytes.subrange(32, 36) =~= le32(c.CounterSize));
    assert(bytes.subrange(36, 40) =~= le32(c.CounterOffset));
    lemma_u32_field(b, pos, bytes, 0, c.ByteLength);
    lemma_u32_field(b, pos, bytes, 4, c.CounterNameTitleIndex);
    lemma_u32_field(b, pos, bytes, 8, c.CounterNameTitle);
    lemma_u32_field(b, pos, bytes, 12, c.CounterHelpTitleIndex);
    lemma_u32_field(b, pos, bytes, 16, c.CounterHelpTitle);
    lemma_u32_field(b, pos, bytes, 20, c.DefaultScale as u32);
    lemma_u32_field(b, pos, bytes, 24, c.DetailLevel);
    lemma_u32_field(b, pos, bytes, 28, c.CounterType);
    lemma_u32_field(b, pos, bytes, 32, c.CounterSize);
    lemma_u32_field(b, pos, bytes, 36, c.CounterOffset);
    lemma_i32_cast(c.DefaultScale);
}

/// An instance definition reads back from its bytes.
pub proof fn lemma_read_instance_definition(b: Seq<u8>, pos: int, d: PERF_INSTANCE_DEFINITION)
    requires
        0 <= pos,
        pos + 24 <= b.len(),
        b.subrange(pos, pos + 24) == instance_definition_bytes(d),
    ensures
        spec_read_instance_definition(b, pos) == d,
{
    let bytes = instance_definition_bytes(d);
    assert(bytes.len() == 24);
    assert(bytes.subrange(0, 4) =~= le32(d.ByteLength));
    assert(bytes.subrange(4, 8) =~= le32(d.ParentObjectTitleIndex));
    assert(bytes.subrange(8, 12) =~= le32(d.ParentObjectInstance));
    assert(bytes.subrange(12, 16) =~= le32(d.UniqueID as u32));
    assert(bytes.subrange(16, 20) =~= le32(d.NameOffset));
    assert(bytes.subrange(20, 24) =~= le32(d.NameLength));
    lemma_u32_field(b, pos, bytes, 0, d.ByteLength);
    lemma_u32_field(b, pos, bytes, 4, d.ParentObjectTitleIndex);
    lemma_u32_field(b, pos, bytes, 8, d.ParentObjectInstance);
    lemma_u32_field(b, pos, bytes, 12, d.UniqueID as u32);
    lemma_u32_field(b, pos, bytes, 16, d.NameOffset);
    lemma_u32_field(b, pos, bytes, 20, d.NameLength);
    lemma_i32_cast(d.UniqueID);
}

/// The bytes of counter definitions begin with those of the first one.
proof fn lemma_definitions_bytes_front(defs: Seq<PERF_COUNTER_DEFINITION>)
    requires
        defs.len() > 0,
    ensures
        definitions_bytes(defs) == counter_definition_bytes(defs[0]) + definitions_bytes(defs.drop_first()),
    decreases defs.len(),
{
    if defs.len() == 1 {
        assert(defs.drop_last() =~= Seq::<PERF_COUNTER_DEFINITION>::empty());
        assert(defs.drop_first() =~= Seq::<PERF_COUNTER_DEFINITION>::empty());
        assert(definitions_bytes(defs) =~= counter_definition_bytes(defs[0]) + definitions_bytes(defs.drop_first()));
    } else {
        lemma_definitions_bytes_front(defs.drop_last());
        assert(defs.drop_last().drop_first() =~= defs.drop_first().drop_last());
        assert(defs.drop_first().last() == defs.last());
        assert(definitions_bytes(defs) =~= counter_definition_bytes(defs[0]) + definitions_bytes(defs.drop_first()));
    }
}

/// Counter definitions take forty bytes each.
proof fn lemma_definitions_bytes_len(defs: Seq<PERF_COUNTER_DEFINITION>)
    ensures
        definitions_bytes(defs).len() == 40 * defs.len(),
    decreases defs.len(),
{
    if defs.len() > 0 {
        lemma_definitions_bytes_len(defs.drop_last());
    }
}

/// Counter definitions read back from their bytes.
#[verifier::spinoff_prover]
#[verifier::rlimit(40)]
pub proof fn lemma_read_counter_definitions(b: Seq<u8>, pos: int, defs: Seq<PERF_COUNTER_DEFINITION>)
    requires
        0 <= pos,
        pos + definitions_bytes(defs).len() <= b.len(),
        b.subrange(pos, pos + definitions_bytes(defs).len()) == definitions_bytes(defs),
    ensures
        spec_counter_definitions(b, pos, defs.len()) == Some(defs),
    decreases defs.len(),
{
    lemma_definitions_bytes_len(defs);
    if defs.len() == 0 {
        assert(spec_counter_definitions(b, pos, 0) == Some(Seq::<PERF_COUNTER_DEFINITION>::empty()));
        assert(defs =~= Seq::<PERF_COUNTER_DEFINITION>::empty());
    } else {
        lemma_definitions_bytes_front(defs);
        let all = definitions_bytes(defs);
        let rest = defs.drop_first();
        lemma_definitions_bytes_len(rest);
        assert(b.subrange(pos, pos + 40) =~= counter_definition_bytes(defs[0])) by {
            assert forall|i: int| 0 <= i < 40 implies b.subrange(pos, pos + 40)[i] == counter_definition_bytes(defs[0])[i] by {
                assert(b.subrange(pos, pos + all.len())[i] == all[i]);
            }
        }
        lemma_read_counter_definition(b, pos, defs[0]);
        assert(b.subrange(pos + 40, pos + 40 + definitions_bytes(rest).len()) =~= definitions_bytes(rest)) by {
            assert forall|i: int| 0 <= i < definitions_bytes(rest).len() implies b.subrange(
                pos + 40,
                pos + 40 + definitions_bytes(rest).len(),
            )[i] == definitions_bytes(rest)[i] by {
                assert(b.subrange(pos, pos + all.len())[40 + i] == all[40 + i]);
            }
        }
        lemma_read_counter_definitions(b, pos + 40, rest);
        assert(seq![defs[0]] + rest =~= defs);
    }
}

/// The bytes of UTF-16 code units: the low, then the high byte of each.
proof fn lemma_utf16_bytes_index(units: Seq<u16>, i: int)
    requires
        0 <= i < units.len(),
    ensures
        utf16_bytes(units).len() == 2 * units.len(),
        utf16_bytes(units)[2 * i] == (units[i] & 0xff) as u8,
        utf16_bytes(units)[2 * i + 1] == (units[i] >> 8u16) as u8,
    decreases units.len(),
{
    lemma_utf16_len(units);
    if i < units.len() - 1 {
        lemma_utf16_bytes_index(units.drop_last(), i);
    }
}

proof fn lemma_utf16_len(units: Seq<u16>)
    ensures
        utf16_bytes(units).len() == 2 * units.len(),
    decreases units.len(),
{
    if units.len() > 0 {
        lemma_utf16_len(units.drop_last());
    }
}

proof fn lemma_unit_bytes(u: u16, lo: u8, hi: u8)
    by (bit_vector)
    requires
        lo == (u & 0xff) as u8,
        hi == (u >> 8u16) as u8,
    ensures
        (lo as u16) | ((hi as u16) << 8u16) == u,
{
}

/// A name without nul, written with its nul, reads back as the name.
pub proof fn lemma_read_u16cstr(b: Seq<u8>, start: int, offset: int, name: Seq<u16>)
    requires
        0 <= start,
        0 <= offset,
        start + offset + utf16_bytes(name.push(0)).len() <= b.len(),
        b.subrange(start + offset, start + offset + utf16_bytes(name.push(0)).len()) == utf16_bytes(name.push(0)),
        has_no_nul(name),
    ensures
        spec_u16cstr(b, start, offset, utf16_bytes(name.push(0)).len() as int) == Some(name),
{
    let units = name.push(0);
    let bytes = utf16_bytes(units);
    lemma_utf16_len(units);
    let from = start + offset;
    let len = bytes.len() as int;
    let read = units_at(b, from, len);
    assert(read =~= units) by {
        assert forall|i: int| 0 <= i < units.len() implies read[i] == units[i] by {
            lemma_utf16_bytes_index(units, i);
            assert(b.subrange(from, from + len)[2 * i] == bytes[2 * i]);
            assert(b.subrange(from, from + len)[2 * i + 1] == bytes[2 * i + 1]);
            lemma_unit_bytes(units[i], b[from + 2 * i], b[from + 2 * i + 1]);
        }
    }
    lemma_first_nul_at(units, name.len());
    assert(units.take(name.len() as int) =~= name);
}

/// Writing bytes over a base that holds them keeps its length, puts them in place and
/// leaves the rest.
proof fn lemma_overwrite(base: Seq<u8>, pos: int, bytes: Seq<u8>)
    requires
        0 <= pos,
        pos + bytes.len() <= base.len(),
    ensures
        overwrite(base, pos, bytes).len() == base.len(),
        overwrite(base, pos, bytes).subrange(pos, pos + bytes.len()) == bytes,
        forall|i: int| 0 <= i < pos ==> #[trigger] overwrite(base, pos, bytes)[i] == base[i],
        forall|i: int| pos + bytes.len() <= i < base.len() ==> #[trigger] overwrite(base, pos, bytes)[i] == base[i],
{
    assert(overwrite(base, pos, bytes).subrange(pos, pos + bytes.len()) =~= bytes);
}

/// A counter block: at least its four-byte header, which holds its length.
pub open spec fn block_ok(blk: Seq<u8>) -> bool {
    &&& 4 <= blk.len() <= u32::MAX
    &&& blk.take(4) == le32(blk.len() as u32)
}

/// A counter block reads back from its bytes, all of them.
pub proof fn lemma_read_counter_block(b: Seq<u8>, pos: int, blk: Seq<u8>)
    requires
        0 <= pos,
        pos + blk.len() <= b.len(),
        b.subrange(pos, pos + blk.len()) == blk,
        block_ok(blk),
    ensures
        spec_counter_block(b, pos) == Some(
            (pos + blk.len(), CounterBlockView { raw: PERF_COUNTER_BLOCK { ByteLength: blk.len() as u32 }, data: blk }),
        ),
{
    assert(blk.subrange(0, 4) =~= blk.take(4));
    lemma_u32_field(b, pos, blk, 0, blk.len() as u32);
    assert(b.subrange(pos, pos + blk.len()) == blk);
}

/// The image of a block whose counters lie after its header, with values that fit, is a
/// counter block of its length.
pub proof fn lemma_block_image_ok(len: u32, defs: Seq<PERF_COUNTER_DEFINITION>, values: Seq<CounterValue>)
    requires
        defs.len() == values.len(),
        block_fits(len, defs, values),
        forall|i: int| 0 <= i < defs.len() ==> (#[trigger] defs[i]).CounterOffset >= 4,
    ensures
        block_image(len, defs, values).len() == len,
        block_ok(block_image(len, defs, values)),
    decreases defs.len(),
{
    if defs.len() == 0 {
        lemma_overwrite(zeros(len as nat), 0, le32(len));
        assert(block_image(len, defs, values).take(4) =~= le32(len)) by {
            assert(block_image(len, defs, values).subrange(0, 4) == le32(len));
        }
    } else {
        let init = defs.drop_last();
        assert forall|i: int| 0 <= i < init.len() implies (#[trigger] init[i]).CounterOffset >= 4 by {
            assert(init[i] == defs[i]);
        }
        lemma_block_image_ok(len, init, values.drop_last());
        let prev = block_image(len, init, values.drop_last());
        let d = defs.last();
        lemma_overwrite(prev, d.CounterOffset as int, value_bytes(values.last()@));
        assert(block_image(len, defs, values).take(4) =~= prev.take(4)) by {
            assert forall|i: int| 0 <= i < 4 implies block_image(len, defs, values).take(4)[i] == prev.take(4)[i] by {
                assert(block_image(len, defs, values)[i] == prev[i]);
            }
        }
    }
}

/// Counters whose values lie after the header of their block and one after another.
pub open spec fn counters_apart(defs: Seq<PERF_COUNTER_DEFINITION>) -> bool {
    &&& forall|i: int| 0 <= i < defs.len() ==> (#[trigger] defs[i]).CounterOffset >= 4
    &&& forall|i: int, j: int|
        0 <= i < j < defs.len() ==> #[trigger] defs[i].CounterOffset + defs[i].CounterSize <= (#[trigger] defs[j]).CounterOffset
}

/// The size of the counter type that holds a value written into a block.
pub open spec fn size_of_value(v: CounterValueView) -> Size {
    match v {
        CounterValueView::Dword(_) => Size::Dword,
        CounterValueView::Large(_) => Size::Large,
        _ => Size::Zero,
    }
}

/// The bytes of each value written into a block stay where its counter says.
proof fn lemma_value_in_place(len: u32, defs: Seq<PERF_COUNTER_DEFINITION>, values: Seq<CounterValue>, i: int)
    requires
        defs.len() == values.len(),
        block_fits(len, defs, values),
        counters_apart(defs),
        0 <= i < defs.len(),
    ensures
        block_image(len, defs, values).len() == len,
        defs[i].CounterOffset + defs[i].CounterSize <= len,
        value_fits(defs[i], values[i]@),
        block_image(len, defs, values).subrange(
            defs[i].CounterOffset as int,
            defs[i].CounterOffset + defs[i].CounterSize,
        ) == value_bytes(values[i]@),
    decreases defs.len(),
{
    let n = defs.len() - 1;
    let init = defs.drop_last();
    let vinit = values.drop_last();
    assert(counters_apart(init)) by {
        assert forall|k: int| 0 <= k < init.len() implies (#[trigger] init[k]).CounterOffset >= 4 by {
            assert(init[k] == defs[k]);
        }
        assert forall|k: int, j: int| 0 <= k < j < init.len() implies #[trigger] init[k].CounterOffset
            + init[k].CounterSize <= (#[trigger] init[j]).CounterOffset by {
            assert(init[k] == defs[k] && init[j] == defs[j]);
        }
    }
    lemma_block_image_ok(len, init, vinit);
    let prev = block_image(len, init, vinit);
    let d = defs.last();
    let bytes = value_bytes(values.last()@);
    lemma_overwrite(prev, d.CounterOffset as int, bytes);
    if i < n {
        lemma_value_in_place(len, init, vinit, i);
        let (off, end) = (defs[i].CounterOffset as int, defs[i].CounterOffset + defs[i].CounterSize);
        assert(end <= d.CounterOffset);
        assert(init[i] == defs[i] && vinit[i] == values[i]);
        assert(block_image(len, defs, values).subrange(off, end) =~= prev.subrange(off, end)) by {
            assert forall|k: int| 0 <= k < end - off implies block_image(len, defs, values).subrange(off, end)[k]
                == prev.subrange(off, end)[k] by {
                assert(block_image(len, defs, values)[off + k] == prev[off + k]);
            }
        }
    }
}

/// Law: each value written into a counter block reads back from the block's bytes, when
/// the counters lie apart and each counter's type has the size of its value.
pub proof fn lemma_block_values_read_back(len: u32, defs: Seq<PERF_COUNTER_DEFINITION>, values: Seq<CounterValue>, i: int)
    requires
        defs.len() == values.len(),
        block_fits(len, defs, values),
        counters_apart(defs),
        0 <= i < defs.len(),
        size_from_raw(defs[i].CounterType) == size_of_value(values[i]@),
    ensures
        spec_value(defs[i], block_image(len, defs, values)) == Ok::<CounterValueView, ValueError>(values[i]@),
{
    lemma_value_in_place(len, defs, values, i);
    let img = block_image(len, defs, values);
    let d = defs[i];
    let slice = img.subrange(d.CounterOffset as int, d.CounterOffset + d.CounterSize);
    assert(spec_slice(d, img) == Some(slice));
    match values[i]@ {
        CounterValueView::Dword(v) => {
            assert(le_bytes_u32(v) =~= le32(v));
            assert(slice.subrange(0, 4) =~= slice);
            lemma_u32_roundtrip(v, slice, 0);
            assert(spec_value(d, img) == Ok::<CounterValueView, ValueError>(CounterValueView::Dword(v)));
        },
        CounterValueView::Large(v) => {
            assert(le_bytes_u64(v) =~= le64(v));
            assert(slice.subrange(0, 8) =~= slice);
            lemma_u64_roundtrip(v, slice, 0);
            assert(spec_value(d, img) == Ok::<CounterValueView, ValueError>(CounterValueView::Large(v)));
        },
        _ => {
            assert(values[i]@ is Zero);
        },
    }
}

/// The counters of a laid-out block lie one after another after its header, each within
/// the block.
pub proof fn lemma_counters_block_apart(first_counter: u32, ts: Seq<PerfCounterDefinitionTemplate>)
    requires
        counters_fit(first_counter, ts),
    ensures
        counters_apart(counters_block(first_counter, ts).1),
        forall|i: int| 0 <= i < counters_block(first_counter, ts).1.len() ==> #[trigger] counters_block(first_counter, ts).1[i].CounterOffset
            + counters_block(first_counter, ts).1[i].CounterSize <= counters_block(first_counter, ts).0,
        counters_block(first_counter, ts).0 >= 4,
        counters_block(first_counter, ts).1.len() == ts.len(),
    decreases ts.len(),
{
    if ts.len() > 0 {
        let init = ts.drop_last();
        lemma_counters_block_apart(first_counter, init);
        let (len, prev) = counters_block(first_counter, init);
        let defs = counters_block(first_counter, ts).1;
        assert(defs.drop_last() =~= prev);
        assert(defs.last().CounterOffset == len);
        assert forall|i: int| 0 <= i < defs.len() implies (#[trigger] defs[i]).CounterOffset >= 4 by {
            if i < prev.len() {
                assert(defs[i] == prev[i]);
            }
        }
        assert forall|i: int, j: int| 0 <= i < j < defs.len() implies #[trigger] defs[i].CounterOffset
            + defs[i].CounterSize <= (#[trigger] defs[j]).CounterOffset by {
            assert(defs[i] == prev[i]);
            if j < prev.len() {
                assert(defs[j] == prev[j]);
            }
        }
        assert forall|i: int| 0 <= i < defs.len() implies #[trigger] defs[i].CounterOffset + defs[i].CounterSize
            <= counters_block(first_counter, ts).0 by {
            if i < prev.len() {
                assert(defs[i] == prev[i]);
            }
        }
    }
}

/// Law: the counter block that a provider writes for its laid-out counters gives back each
/// value it was given, for a counter whose type has the size of the value.
pub proof fn lemma_laid_out_block_reads_back(
    first_counter: u32,
    ts: Seq<PerfCounterDefinitionTemplate>,
    values: Seq<CounterValue>,
    i: int,
)
    requires
        counters_fit(first_counter, ts),
        values.len() == ts.len(),
        block_fits(counters_block(first_counter, ts).0 as u32, counters_block(first_counter, ts).1, values),
        0 <= i < ts.len(),
        size_from_raw(counters_block(first_counter, ts).1[i].CounterType) == size_of_value(values[i]@),
    ensures
        spec_value(
            counters_block(first_counter, ts).1[i],
            block_image(counters_block(first_counter, ts).0 as u32, counters_block(first_counter, ts).1, values),
        ) == Ok::<CounterValueView, ValueError>(values[i]@),
{
    lemma_counters_block_apart(first_counter, ts);
    lemma_block_values_read_back(counters_block(first_counter, ts).0 as u32, counters_block(first_counter, ts).1, values, i);
}

/// An instance that reads back: its image fits, its name comes after its definition and
/// holds no nul.
pub open spec fn instance_ok(def: PERF_INSTANCE_DEFINITION, name: Seq<u16>) -> bool {
    &&& instance_image_fits(def, name)
    &&& def.NameOffset >= PERF_INSTANCE_DEFINITION_SIZE
    &&& has_no_nul(name)
}

/// The image of an instance has its length, its definition in front and its name at its
/// offset.
proof fn lemma_instance_image(def: PERF_INSTANCE_DEFINITION, name: Seq<u16>)
    requires
        instance_ok(def, name),
    ensures
        instance_image(def, name).len() == def.ByteLength,
        instance_image(def, name).subrange(0, 24) == instance_definition_bytes(def),
        instance_image(def, name).subrange(def.NameOffset as int, def.NameOffset + def.NameLength) == utf16_bytes(name.push(0)),
{
    let z = zeros(def.ByteLength as nat);
    let h = instance_definition_bytes(def);
    assert(h.len() == 24);
    lemma_overwrite(z, 0, h);
    let first = overwrite(z, 0, h);
    let nb = utf16_bytes(name.push(0));
    lemma_overwrite(first, def.NameOffset as int, nb);
    let img = overwrite(first, def.NameOffset as int, nb);
    assert(img.subrange(0, 24) =~= h) by {
        assert forall|i: int| 0 <= i < 24 implies img.subrange(0, 24)[i] == h[i] by {
            assert(img[i] == first[i]);
            assert(first.subrange(0, 24)[i] == h[i]);
        }
    }
}

/// An instance reads back from its image.
pub proof fn lemma_read_instance(b: Seq<u8>, pos: int, def: PERF_INSTANCE_DEFINITION, name: Seq<u16>)
    requires
        0 <= pos,
        pos + def.ByteLength <= b.len(),
        b.subrange(pos, pos + def.ByteLength) == instance_image(def, name),
        instance_ok(def, name),
    ensures
        spec_instance_definition(b, pos) == Some((pos + def.ByteLength, InstanceView { raw: def, name })),
{
    lemma_instance_image(def, name);
    let img = instance_image(def, name);
    assert(b.subrange(pos, pos + 24) =~= instance_definition_bytes(def)) by {
        assert forall|i: int| 0 <= i < 24 implies b.subrange(pos, pos + 24)[i] == instance_definition_bytes(def)[i] by {
            assert(b.subrange(pos, pos + def.ByteLength)[i] == img[i]);
            assert(img.subrange(0, 24)[i] == img[i]);
        }
    }
    lemma_read_instance_definition(b, pos, def);
    let nb = utf16_bytes(name.push(0));
    let off = def.NameOffset as int;
    assert(b.subrange(pos + off, pos + off + nb.len()) =~= nb) by {
        assert forall|i: int| 0 <= i < nb.len() implies b.subrange(pos + off, pos + off + nb.len())[i] == nb[i] by {
            assert(b.subrange(pos, pos + def.ByteLength)[off + i] == img[off + i]);
            assert(img.subrange(off, off + def.NameLength)[i] == img[off + i]);
        }
    }
    lemma_read_u16cstr(b, pos, off, name);
}

/// The parts written for instances: the image of each instance, then its counter block.
pub open spec fn instance_parts(items: Seq<(PERF_INSTANCE_DEFINITION, Seq<u16>, Seq<u8>)>) -> Seq<Seq<u8>>
    decreases items.len(),
{
    if items.len() == 0 {
        seq![]
    } else {
        instance_parts(items.drop_last()) + seq![instance_image(items.last().0, items.last().1), items.last().2]
    }
}

/// What the parser gives for instances and their counter blocks.
pub open spec fn instances_view(items: Seq<(PERF_INSTANCE_DEFINITION, Seq<u16>, Seq<u8>)>) -> Seq<(InstanceView, CounterBlockView)> {
    Seq::new(
        items.len(),
        |i: int| (
            InstanceView { raw: items[i].0, name: items[i].1 },
            CounterBlockView { raw: PERF_COUNTER_BLOCK { ByteLength: items[i].2.len() as u32 }, data: items[i].2 },
        ),
    )
}

/// Every instance reads back and every block is a counter block.
pub open spec fn instances_ok(items: Seq<(PERF_INSTANCE_DEFINITION, Seq<u16>, Seq<u8>)>) -> bool {
    forall|i: int| 0 <= i < items.len() ==> instance_ok((#[trigger] items[i]).0, items[i].1) && block_ok(items[i].2)
}

/// Byte strings one after the other, split anywhere.
proof fn lemma_concat_bytes_append(a: Seq<Seq<u8>>, c: Seq<Seq<u8>>)
    ensures
        concat_bytes(a + c) == concat_bytes(a) + concat_bytes(c),
    decreases c.len(),
{
    if c.len() == 0 {
        assert(a + c =~= a);
        assert(concat_bytes(a) + concat_bytes(c) =~= concat_bytes(a));
    } else {
        lemma_concat_bytes_append(a, c.drop_last());
        assert((a + c).drop_last() =~= a + c.drop_last());
        assert((a + c).last() == c.last());
        assert(concat_bytes(a + c) =~= concat_bytes(a) + concat_bytes(c));
    }
}

/// The parts of instances begin with those of the first one.
proof fn lemma_instance_parts_front(items: Seq<(PERF_INSTANCE_DEFINITION, Seq<u16>, Seq<u8>)>)
    requires
        items.len() > 0,
    ensures
        instance_parts(items) == seq![instance_image(items[0].0, items[0].1), items[0].2] + instance_parts(items.drop_first()),
    decreases items.len(),
{
    if items.len() == 1 {
        assert(items.drop_last() =~= Seq::<(PERF_INSTANCE_DEFINITION, Seq<u16>, Seq<u8>)>::empty());
        assert(items.drop_first() =~= Seq::<(PERF_INSTANCE_DEFINITION, Seq<u16>, Seq<u8>)>::empty());
        assert(instance_parts(items) =~= seq![instance_image(items[0].0, items[0].1), items[0].2] + instance_parts(items.drop_first()));
    } else {
        lemma_instance_parts_front(items.drop_last());
        assert(items.drop_last().drop_first() =~= items.drop_first().drop_last());
        assert(items.drop_first().last() == items.last());
        assert(instance_parts(items) =~= seq![instance_image(items[0].0, items[0].1), items[0].2] + instance_parts(items.drop_first()));
    }
}

/// Instances and their counter blocks read back from their bytes.
pub proof fn lemma_read_instances(b: Seq<u8>, pos: int, items: Seq<(PERF_INSTANCE_DEFINITION, Seq<u16>, Seq<u8>)>)
    requires
        0 <= pos,
        pos + concat_bytes(instance_parts(items)).len() <= b.len(),
        b.subrange(pos, pos + concat_bytes(instance_parts(items)).len()) == concat_bytes(instance_parts(items)),
        instances_ok(items),
    ensures
        spec_instance_pairs(b, pos, items.len()) == Some(instances_view(items)),
    decreases items.len(),
{
    if items.len() == 0 {
        assert(instances_view(items) =~= Seq::<(InstanceView, CounterBlockView)>::empty());
    } else {
        let rest = items.drop_first();
        let (def, name, blk) = items[0];
        assert(instance_ok(def, name) && block_ok(blk));
        let img = instance_image(def, name);
        lemma_instance_image(def, name);
        lemma_instance_parts_front(items);
        lemma_concat_bytes_append(seq![img, blk], instance_parts(rest));
        assert(concat_bytes(seq![img, blk]) =~= img + blk) by {
            let two = seq![img, blk];
            let one = seq![img];
            assert(two.drop_last() =~= one);
            assert(one.drop_last() =~= Seq::<Seq<u8>>::empty());
            assert(concat_bytes(Seq::<Seq<u8>>::empty()) == Seq::<u8>::empty());
            assert(concat_bytes(one) == concat_bytes(one.drop_last()) + one.last());
            assert(concat_bytes(one) =~= img);
            assert(concat_bytes(two) == concat_bytes(two.drop_last()) + two.last());
        }
        let all = concat_bytes(instance_parts(items));
        let tail = concat_bytes(instance_parts(rest));
        assert(all == img + blk + tail);
        let n1 = img.len() as int;
        let n2 = blk.len() as int;
        assert(b.subrange(pos, pos + n1) =~= img) by {
            assert forall|i: int| 0 <= i < n1 implies b.subrange(pos, pos + n1)[i] == img[i] by {
                assert(b.subrange(pos, pos + all.len())[i] == all[i]);
            }
        }
        lemma_read_instance(b, pos, def, name);
        assert(b.subrange(pos + n1, pos + n1 + n2) =~= blk) by {
            assert forall|i: int| 0 <= i < n2 implies b.subrange(pos + n1, pos + n1 + n2)[i] == blk[i] by {
                assert(b.subrange(pos, pos + all.len())[n1 + i] == all[n1 + i]);
            }
        }
        lemma_read_counter_block(b, pos + n1, blk);
        assert(b.subrange(pos + n1 + n2, pos + n1 + n2 + tail.len()) =~= tail) by {
            assert forall|i: int| 0 <= i < tail.len() implies b.subrange(pos + n1 + n2, pos + n1 + n2 + tail.len())[i] == tail[i] by {
                assert(b.subrange(pos, pos + all.len())[n1 + n2 + i] == all[n1 + n2 + i]);
            }
        }
        assert forall|i: int| 0 <= i < rest.len() implies instance_ok((#[trigger] rest[i]).0, rest[i].1) && block_ok(rest[i].2) by {
            assert(rest[i] == items[i + 1]);
        }
        lemma_read_instances(b, pos + n1 + n2, rest);
        assert(seq![instances_view(items)[0]] + instances_view(rest) =~= instances_view(items));
    }
}

/// What follows the counter definitions of an object: one counter block, or instances
/// with their counter blocks.
pub enum ObjectBody {
    Single(Seq<u8>),
    Many(Seq<(PERF_INSTANCE_DEFINITION, Seq<u16>, Seq<u8>)>),
}

/// The parts written for the body of an object.
pub open spec fn body_parts(body: ObjectBody) -> Seq<Seq<u8>> {
    match body {
        ObjectBody::Single(blk) => seq![blk],
        ObjectBody::Many(items) => instance_parts(items),
    }
}

/// What the parser gives for the body of an object.
pub open spec fn body_view(body: ObjectBody) -> ObjectDataView {
    match body {
        ObjectBody::Single(blk) => ObjectDataView::Singleton(
            CounterBlockView { raw: PERF_COUNTER_BLOCK { ByteLength: blk.len() as u32 }, data: blk },
        ),
        ObjectBody::Many(items) => ObjectDataView::Instances(instances_view(items)),
    }
}

/// The header of an object agrees with its counter definitions: the definitions follow
/// the header, and the data follows the definitions.
pub open spec fn header_ok(o: PERF_OBJECT_TYPE, defs: Seq<PERF_COUNTER_DEFINITION>) -> bool {
    &&& o.HeaderLength == 64
    &&& o.NumCounters == defs.len()
    &&& o.DefinitionLength == 64 + 40 * defs.len()
}

/// The header of an object agrees with its body: no instances and one counter block, or
/// as many instances as it says, each with a counter block.
pub open spec fn body_ok(o: PERF_OBJECT_TYPE, body: ObjectBody) -> bool {
    match body {
        ObjectBody::Single(blk) => o.NumInstances == -1 && block_ok(blk),
        ObjectBody::Many(items) => o.NumInstances >= 0 && o.NumInstances == items.len() && instances_ok(items),
    }
}

/// Where the parts of an object lie in its image: the header first, then the counter
/// definitions, then the body.
pub proof fn lemma_object_image_layout(o: PERF_OBJECT_TYPE, defs: Seq<PERF_COUNTER_DEFINITION>, parts: Seq<Seq<u8>>)
    requires
        object_content(o, defs, parts).len() <= o.TotalByteLength,
    ensures
        object_image(o, defs, parts).len() == o.TotalByteLength,
        object_image(o, defs, parts).subrange(0, 64) == object_type_bytes(o),
        object_image(o, defs, parts).subrange(64, 64 + 40 * (defs.len() as int)) == definitions_bytes(defs),
        object_image(o, defs, parts).subrange(
            64 + 40 * (defs.len() as int),
            64 + 40 * (defs.len() as int) + (concat_bytes(parts).len() as int),
        ) == concat_bytes(parts),
        64 + 40 * defs.len() + concat_bytes(parts).len() <= o.TotalByteLength,
{
    let content = object_content(o, defs, parts);
    let head = object_type_bytes(o);
    let db = definitions_bytes(defs);
    let tail = concat_bytes(parts);
    let t = o.TotalByteLength as int;
    assert(head.len() == 64);
    lemma_definitions_bytes_len(defs);
    lemma_overwrite(zeros(t as nat), 0, content);
    let img = object_image(o, defs, parts);
    let cl = content.len() as int;
    assert(img.subrange(0, 64) =~= head) by {
        assert forall|i: int| 0 <= i < 64 implies img.subrange(0, 64)[i] == head[i] by {
            assert(img.subrange(0, cl)[i] == content[i]);
        }
    }
    let dbl = db.len() as int;
    assert(img.subrange(64, 64 + dbl) =~= db) by {
        assert forall|i: int| 0 <= i < dbl implies img.subrange(64, 64 + dbl)[i] == db[i] by {
            assert(img.subrange(0, cl)[64 + i] == content[64 + i]);
        }
    }
    let d: int = 64 + dbl;
    let tl = tail.len() as int;
    assert(img.subrange(d, d + tl) =~= tail) by {
        assert forall|i: int| 0 <= i < tl implies img.subrange(d, d + tl)[i] == tail[i] by {
            assert(img.subrange(0, cl)[d + i] == content[d + i]);
        }
    }
}

/// Bytes that lie at `pos` in `b`: a range of them lies there too.
proof fn lemma_sub_placed(b: Seq<u8>, pos: int, img: Seq<u8>, from: int, to: int, part: Seq<u8>)
    requires
        0 <= pos,
        pos + img.len() <= b.len(),
        b.subrange(pos, pos + img.len()) == img,
        0 <= from <= to <= img.len(),
        img.subrange(from, to) == part,
    ensures
        b.subrange(pos + from, pos + to) == part,
{
    assert(b.subrange(pos + from, pos + to) =~= part) by {
        assert forall|i: int| 0 <= i < to - from implies b.subrange(pos + from, pos + to)[i] == part[i] by {
            assert(b.subrange(pos, pos + img.len())[from + i] == img[from + i]);
            assert(img.subrange(from, to)[i] == img[from + i]);
        }
    }
}

/// The body of an object reads back from where its counter definitions end.
proof fn lemma_read_body(b: Seq<u8>, pos: int, o: PERF_OBJECT_TYPE, defs: Seq<PERF_COUNTER_DEFINITION>, body: ObjectBody)
    requires
        0 <= pos,
        pos + o.TotalByteLength <= b.len(),
        b.subrange(pos, pos + o.TotalByteLength) == object_image(o, defs, body_parts(body)),
        header_ok(o, defs),
        body_ok(o, body),
        object_content(o, defs, body_parts(body)).len() <= o.TotalByteLength,
    ensures
        spec_object_data(b, pos + o.DefinitionLength, o.NumInstances) == Some(body_view(body)),
{
    let parts = body_parts(body);
    let img = object_image(o, defs, parts);
    lemma_object_image_layout(o, defs, parts);
    let d: int = 64 + 40 * (defs.len() as int);
    let tail = concat_bytes(parts);
    lemma_sub_placed(b, pos, img, d, d + tail.len(), tail);
    match body {
        ObjectBody::Single(blk) => {
            assert(concat_bytes(seq![blk]) =~= blk) by {
                assert(seq![blk].drop_last() =~= Seq::<Seq<u8>>::empty());
                assert(concat_bytes(seq![blk]) == concat_bytes(seq![blk].drop_last()) + seq![blk].last());
            }
            lemma_read_counter_block(b, pos + d, blk);
        },
        ObjectBody::Many(items) => {
            lemma_read_instances(b, pos + d, items);
        },
    }
}

/// An object parses from its parts: a header, counter definitions and data that read
/// back, within the input.
proof fn lemma_object_from_parts(
    b: Seq<u8>,
    pos: int,
    o: PERF_OBJECT_TYPE,
    defs: Seq<PERF_COUNTER_DEFINITION>,
    data: ObjectDataView,
)
    requires
        0 <= pos,
        pos + 64 <= b.len(),
        pos + o.TotalByteLength <= b.len(),
        pos + o.HeaderLength <= b.len(),
        pos + o.DefinitionLength <= b.len(),
        spec_read_object_type(b, pos) == o,
        spec_counter_definitions(b, pos + o.HeaderLength, o.NumCounters as nat) == Some(defs),
        spec_object_data(b, pos + o.DefinitionLength, o.NumInstances) == Some(data),
    ensures
        spec_object_type(b, pos) == Some((pos + o.TotalByteLength, ObjectTypeView { raw: o, counters: defs, data })),
{
}

/// Law: the bytes of an object, laid out as a provider writes them, parse back into the
/// object wherever they lie: its header, its counter definitions and its body, and the
/// parser goes on right after its total length.
pub proof fn lemma_object_reads_back(b: Seq<u8>, pos: int, o: PERF_OBJECT_TYPE, defs: Seq<PERF_COUNTER_DEFINITION>, body: ObjectBody)
    requires
        header_ok(o, defs),
        body_ok(o, body),
        object_content(o, defs, body_parts(body)).len() <= o.TotalByteLength,
        0 <= pos,
        pos + o.TotalByteLength <= b.len(),
        b.subrange(pos, pos + o.TotalByteLength) == object_image(o, defs, body_parts(body)),
    ensures
        spec_object_type(b, pos) == Some(
            (pos + o.TotalByteLength, ObjectTypeView { raw: o, counters: defs, data: body_view(body) }),
        ),
{
    let img = object_image(o, defs, body_parts(body));
    lemma_object_image_layout(o, defs, body_parts(body));
    lemma_definitions_bytes_len(defs);
    lemma_sub_placed(b, pos, img, 0, 64, object_type_bytes(o));
    lemma_read_object_type(b, pos, o);
    lemma_sub_placed(b, pos, img, 64, 64 + 40 * (defs.len() as int), definitions_bytes(defs));
    lemma_read_counter_definitions(b, pos + 64, defs);
    lemma_read_body(b, pos, o, defs, body);
    lemma_object_from_parts(b, pos, o, defs, body_view(body));
}

/// Bytes that a provider writes for an object: the image of a header, counter definitions
/// and a body that agree with each other.
pub open spec fn is_object_image(img: Seq<u8>) -> bool {
    exists|o: PERF_OBJECT_TYPE, defs: Seq<PERF_COUNTER_DEFINITION>, body: ObjectBody|
        header_ok(o, defs) && body_ok(o, body) && object_content(o, defs, body_parts(body)).len()
            <= o.TotalByteLength && #[trigger] object_image(o, defs, body_parts(body)) == img
}

/// Law: the bytes written for an object parse back as one object that takes all of them,
/// wherever they lie.
pub proof fn lemma_image_parses(b: Seq<u8>, pos: int, img: Seq<u8>)
    requires
        is_object_image(img),
        0 <= pos,
        pos + img.len() <= b.len(),
        b.subrange(pos, pos + img.len()) == img,
    ensures
        spec_object_type(b, pos) matches Some((end, _)) && end == pos + img.len(),
        img.len() >= 64,
{
    let (o, defs, body) = choose|o: PERF_OBJECT_TYPE, defs: Seq<PERF_COUNTER_DEFINITION>, body: ObjectBody|
        header_ok(o, defs) && body_ok(o, body) && object_content(o, defs, body_parts(body)).len()
            <= o.TotalByteLength && #[trigger] object_image(o, defs, body_parts(body)) == img;
    lemma_object_image_layout(o, defs, body_parts(body));
    lemma_object_reads_back(b, pos, o, defs, body);
}

/// Where `n` objects one after the other from `pos` end, if they parse and each takes at
/// least one byte.
pub open spec fn objects_at(b: Seq<u8>, pos: int, n: nat) -> Option<int>
    decreases n,
{
    if n == 0 {
        Some(pos)
    } else {
        match spec_object_type(b, pos) {
            Some((end, _)) => if end <= pos {
                None
            } else {
                objects_at(b, end, (n - 1) as nat)
            },
            None => None,
        }
    }
}

/// Law: the bytes written for objects, one after the other, parse back as that many
/// objects that take all of them.
#[verifier::spinoff_prover]
#[verifier::rlimit(40)]
pub proof fn lemma_images_parse(b: Seq<u8>, pos: int, imgs: Seq<Seq<u8>>)
    requires
        forall|i: int| 0 <= i < imgs.len() ==> is_object_image(#[trigger] imgs[i]),
        0 <= pos,
        pos + concat_bytes(imgs).len() <= b.len(),
        b.subrange(pos, pos + concat_bytes(imgs).len()) == concat_bytes(imgs),
    ensures
        objects_at(b, pos, imgs.len()) == Some(pos + concat_bytes(imgs).len()),
    decreases imgs.len(),
{
    if imgs.len() > 0 {
        let first = imgs[0];
        let rest = imgs.drop_first();
        assert(imgs =~= seq![first] + rest);
        lemma_concat_bytes_append(seq![first], rest);
        assert(concat_bytes(seq![first]) =~= first) by {
            assert(seq![first].drop_last() =~= Seq::<Seq<u8>>::empty());
            assert(concat_bytes(seq![first]) == concat_bytes(seq![first].drop_last()) + seq![first].last());
        }
        let all = concat_bytes(imgs);
        let tail = concat_bytes(rest);
        assert(all == first + tail);
        assert(all.subrange(0, first.len() as int) =~= first);
        lemma_sub_placed(b, pos, all, 0, first.len() as int, first);
        lemma_image_parses(b, pos, first);
        assert(all.subrange(first.len() as int, all.len() as int) =~= tail);
        lemma_sub_placed(b, pos, all, first.len() as int, all.len() as int, tail);
        assert forall|i: int| 0 <= i < rest.len() implies is_object_image(#[trigger] rest[i]) by {
            assert(rest[i] == imgs[i + 1]);
        }
        lemma_images_parse(b, pos + first.len(), rest);
    }
}

/// Law: the bytes written for a counter definition are laid out as Windows lays out
/// `PERF_COUNTER_DEFINITION`: each field as four little-endian bytes in the order of the C
/// structure, the counter type at byte 28, its size at byte 32 and its offset at byte 36.
pub proof fn lemma_counter_definition_bytes_layout(c: PERF_COUNTER_DEFINITION)
    ensures
        ({
            let b = counter_definition_bytes(c);
            &&& b.len() == 40
            &&& le_number(b, 0) == c.ByteLength
            &&& le_number(b, 4) == c.CounterNameTitleIndex
            &&& le_number(b, 8) == c.CounterNameTitle
            &&& le_number(b, 12) == c.CounterHelpTitleIndex
            &&& le_number(b, 16) == c.CounterHelpTitle
            &&& le_number(b, 20) == c.DefaultScale as u32
            &&& le_number(b, 24) == c.DetailLevel
            &&& le_number(b, 28) == c.CounterType
            &&& le_number(b, 32) == c.CounterSize
            &&& le_number(b, 36) == c.CounterOffset
        }),
{
    let b = counter_definition_bytes(c);
    assert(b.subrange(0, 40) =~= b);
    lemma_read_counter_definition(b, 0, c);
    lemma_counter_definition_layout(b, 0);
}

/// Law: the bytes written for an object header are laid out as Windows lays out
/// `PERF_OBJECT_TYPE`: twelve 32-bit fields in the order of the C structure, then the
/// 64-bit time and frequency, all little-endian.
pub proof fn lemma_object_type_bytes_layout(o: PERF_OBJECT_TYPE)
    ensures
        ({
            let b = object_type_bytes(o);
            &&& b.len() == 64
            &&& le_number(b, 0) == o.TotalByteLength
            &&& le_number(b, 4) == o.DefinitionLength
            &&& le_number(b, 8) == o.HeaderLength
            &&& le_number(b, 12) == o.ObjectNameTitleIndex
            &&& le_number(b, 16) == o.ObjectNameTitle
            &&& le_number(b, 20) == o.ObjectHelpTitleIndex
            &&& le_number(b, 24) == o.ObjectHelpTitle
            &&& le_number(b, 28) == o.DetailLevel
            &&& le_number(b, 32) == o.NumCounters
            &&& le_number(b, 36) == o.DefaultCounter as u32
            &&& le_number(b, 40) == o.NumInstances as u32
            &&& le_number(b, 44) == o.CodePage
            &&& le_number64(b, 48) == o.PerfTime as u64
            &&& le_number64(b, 56) == o.PerfFreq as u64
        }),
{
    let b = object_type_bytes(o);
    assert(b.subrange(0, 64) =~= b);
    lemma_read_object_type(b, 0, o);
    lemma_object_type_layout(b, 0);
}

/// Law: the bytes written for an instance definition are laid out as Windows lays out
/// `PERF_INSTANCE_DEFINITION`: six 32-bit little-endian fields in the order of the C
/// structure.
pub proof fn lemma_instance_definition_bytes_layout(d: PERF_INSTANCE_DEFINITION)
    ensures
        ({
            let b = instance_definition_bytes(d);
            &&& b.len() == 24
            &&& le_number(b, 0) == d.ByteLength
            &&& le_number(b, 4) == d.ParentObjectTitleIndex
            &&& le_number(b, 8) == d.ParentObjectInstance
            &&& le_number(b, 12) == d.UniqueID as u32
            &&& le_number(b, 16) == d.NameOffset
            &&& le_number(b, 20) == d.NameLength
        }),
{
    let b = instance_definition_bytes(d);
    assert(b.subrange(0, 24) =~= b);
    lemma_read_instance_definition(b, 0, d);
    lemma_instance_definition_layout(b, 0);
}

} // verus!
