//! Samples of raw counter data, and the formula that turns one or two samples into the
//! value shown for a counter.
#![allow(non_snake_case)]
use vstd::prelude::*;
use crate::perf::raw::{read_u32, read_u64, u32_at, u64_at, PERF_COUNTER_DEFINITION, PERF_DATA_BLOCK, PERF_OBJECT_TYPE};
use crate::perf::types::{
    definition_valid, normalized_raw, CounterTypeDefinition, PERF_100NSEC_MULTI_TIMER,
    PERF_100NSEC_MULTI_TIMER_INV, PERF_100NSEC_TIMER, PERF_100NSEC_TIMER_INV, PERF_AVERAGE_BULK,
    PERF_AVERAGE_TIMER, PERF_COUNTER_100NS_QUEUELEN_TYPE, PERF_COUNTER_BASE,
    PERF_COUNTER_BULK_COUNT, PERF_COUNTER_COUNTER, PERF_COUNTER_DELTA,
    PERF_COUNTER_LARGE_DELTA, PERF_COUNTER_LARGE_QUEUELEN_TYPE, PERF_COUNTER_LARGE_RAWCOUNT,
    PERF_COUNTER_LARGE_RAWCOUNT_HEX, PERF_COUNTER_MULTI_TIMER, PERF_COUNTER_MULTI_TIMER_INV,
    PERF_COUNTER_OBJ_TIME_QUEUELEN_TYPE, PERF_COUNTER_QUEUELEN_TYPE, PERF_COUNTER_RAWCOUNT,
    PERF_COUNTER_RAWCOUNT_HEX, PERF_COUNTER_TIMER, PERF_COUNTER_TIMER_INV, PERF_DELTA_COUNTER,
    PERF_ELAPSED_TIME, PERF_LARGE_RAW_FRACTION, PERF_MULTI_COUNTER, PERF_OBJ_TIME_TIMER,
    PERF_PRECISION_100NS_TIMER, PERF_PRECISION_OBJECT_TIMER, PERF_PRECISION_SYSTEM_TIMER,
    PERF_RAW_FRACTION, PERF_SAMPLE_COUNTER, PERF_SAMPLE_FRACTION,
};

verus! {

/// The raw data of a counter at one time: its value, the time and frequency it is measured
/// against, and the count of items of a multi-item counter.
#[derive(Clone, Copy, Debug)]
pub struct Sample {
    pub CounterType: CounterTypeDefinition,
    pub Data: u64,
    pub Time: i64,
    pub MultiCounterData: u32,
    pub Frequency: i64,
}

pub struct SampleView {
    pub counter_type: u32,
    pub data: u64,
    pub time: i64,
    pub multi: u32,
    pub frequency: i64,
}

impl View for Sample {
    type V = SampleView;

    open spec fn view(&self) -> SampleView {
        SampleView {
            counter_type: self.CounterType.raw(),
            data: self.Data,
            time: self.Time,
            multi: self.MultiCounterData,
            frequency: self.Frequency,
        }
    }
}

/// The width of a counter's value.
#[derive(Clone, Copy, Debug, PartialEq, Eq, Structural)]
pub enum Width {
    Dword,
    Large,
}

/// Where the time of a sample comes from.
#[derive(Clone, Copy, Debug, PartialEq, Eq, Structural)]
pub enum TimeSource {
    /// No time: zero.
    Zero,
    /// The system's time in the data block.
    System,
    /// The system's time in 100 ns units in the data block.
    System100ns,
    /// The object's time.
    Object,
    /// The 32-bit value of the next counter, the base counter.
    BaseDword,
    /// The 64-bit value of the next counter, the base counter.
    BaseLarge,
}

/// Where the frequency of a sample comes from.
#[derive(Clone, Copy, Debug, PartialEq, Eq, Structural)]
pub enum FrequencySource {
    /// No frequency: zero.
    Zero,
    /// The system's frequency in the data block.
    System,
    /// The object's frequency.
    Object,
}

/// Where the parts of a sample of a counter type come from.
#[derive(Clone, Copy, Debug, PartialEq, Eq, Structural)]
pub struct SampleSource {
    pub data: Width,
    pub time: TimeSource,
    pub frequency: FrequencySource,
}

pub open spec fn source(data: Width, time: TimeSource, frequency: FrequencySource) -> SampleSource {
    SampleSource { data, time, frequency }
}

/// Whether the base-counter bits of a counter type are all set: the counter after one whose
/// type reads a base counter must be such a base counter.
pub open spec fn has_base_bits(t: u32) -> bool {
    t & PERF_COUNTER_BASE == PERF_COUNTER_BASE
}

/// Where the parts of a sample come from, for the counter types that can be sampled.
pub open spec fn spec_sample_source(t: u32) -> Option<SampleSource> {
    if t == PERF_COUNTER_COUNTER || t == PERF_SAMPLE_COUNTER {
        Some(source(Width::Dword, TimeSource::System, FrequencySource::System))
    } else if t == PERF_COUNTER_QUEUELEN_TYPE {
        Some(source(Width::Dword, TimeSource::System, FrequencySource::Zero))
    } else if t == PERF_OBJ_TIME_TIMER {
        Some(source(Width::Dword, TimeSource::Object, FrequencySource::Zero))
    } else if t == PERF_COUNTER_100NS_QUEUELEN_TYPE {
        Some(source(Width::Large, TimeSource::System100ns, FrequencySource::Zero))
    } else if t == PERF_COUNTER_OBJ_TIME_QUEUELEN_TYPE {
        Some(source(Width::Large, TimeSource::Object, FrequencySource::Zero))
    } else if t == PERF_COUNTER_TIMER || t == PERF_COUNTER_TIMER_INV || t == PERF_COUNTER_LARGE_QUEUELEN_TYPE {
        Some(source(Width::Large, TimeSource::System, FrequencySource::Zero))
    } else if t == PERF_COUNTER_BULK_COUNT || t == PERF_COUNTER_MULTI_TIMER || t == PERF_COUNTER_MULTI_TIMER_INV {
        Some(source(Width::Large, TimeSource::System, FrequencySource::System))
    } else if t == PERF_COUNTER_RAWCOUNT || t == PERF_COUNTER_RAWCOUNT_HEX || t == PERF_COUNTER_DELTA {
        Some(source(Width::Dword, TimeSource::Zero, FrequencySource::Zero))
    } else if t == PERF_COUNTER_LARGE_RAWCOUNT || t == PERF_COUNTER_LARGE_RAWCOUNT_HEX || t
        == PERF_COUNTER_LARGE_DELTA {
        Some(source(Width::Large, TimeSource::Zero, FrequencySource::Zero))
    } else if t == PERF_100NSEC_TIMER || t == PERF_100NSEC_TIMER_INV || t == PERF_100NSEC_MULTI_TIMER
        || t == PERF_100NSEC_MULTI_TIMER_INV {
        Some(source(Width::Large, TimeSource::System100ns, FrequencySource::Zero))
    } else if t == PERF_SAMPLE_FRACTION || t == PERF_RAW_FRACTION {
        Some(source(Width::Dword, TimeSource::BaseDword, FrequencySource::Zero))
    } else if t == PERF_LARGE_RAW_FRACTION || t == PERF_PRECISION_SYSTEM_TIMER || t
        == PERF_PRECISION_100NS_TIMER || t == PERF_PRECISION_OBJECT_TIMER {
        Some(source(Width::Large, TimeSource::BaseLarge, FrequencySource::Zero))
    } else if t == PERF_AVERAGE_TIMER {
        Some(source(Width::Large, TimeSource::BaseDword, FrequencySource::System))
    } else if t == PERF_AVERAGE_BULK {
        Some(source(Width::Large, TimeSource::BaseDword, FrequencySource::Zero))
    } else if t == PERF_ELAPSED_TIME {
        Some(source(Width::Large, TimeSource::Object, FrequencySource::Object))
    } else {
        None
    }
}

/// Where the parts of a sample of this counter type come from; `None` for base counters,
/// texts, counters without data, histograms and unknown types.
pub fn sample_source(t: u32) -> (r: Option<SampleSource>)
    ensures
        r == spec_sample_source(t),
{
    if t == PERF_COUNTER_COUNTER || t == PERF_SAMPLE_COUNTER {
        Some(SampleSource { data: Width::Dword, time: TimeSource::System, frequency: FrequencySource::System })
    } else if t == PERF_COUNTER_QUEUELEN_TYPE {
        Some(SampleSource { data: Width::Dword, time: TimeSource::System, frequency: FrequencySource::Zero })
    } else if t == PERF_OBJ_TIME_TIMER {
        Some(SampleSource { data: Width::Dword, time: TimeSource::Object, frequency: FrequencySource::Zero })
    } else if t == PERF_COUNTER_100NS_QUEUELEN_TYPE {
        Some(SampleSource { data: Width::Large, time: TimeSource::System100ns, frequency: FrequencySource::Zero })
    } else if t == PERF_COUNTER_OBJ_TIME_QUEUELEN_TYPE {
        Some(SampleSource { data: Width::Large, time: TimeSource::Object, frequency: FrequencySource::Zero })
    } else if t == PERF_COUNTER_TIMER || t == PERF_COUNTER_TIMER_INV || t == PERF_COUNTER_LARGE_QUEUELEN_TYPE {
        Some(SampleSource { data: Width::Large, time: TimeSource::System, frequency: FrequencySource::Zero })
    } else if t == PERF_COUNTER_BULK_COUNT || t == PERF_COUNTER_MULTI_TIMER || t == PERF_COUNTER_MULTI_TIMER_INV {
        Some(SampleSource { data: Width::Large, time: TimeSource::System, frequency: FrequencySource::System })
    } else if t == PERF_COUNTER_RAWCOUNT || t == PERF_COUNTER_RAWCOUNT_HEX || t == PERF_COUNTER_DELTA {
        Some(SampleSource { data: Width::Dword, time: TimeSource::Zero, frequency: FrequencySource::Zero })
    } else if t == PERF_COUNTER_LARGE_RAWCOUNT || t == PERF_COUNTER_LARGE_RAWCOUNT_HEX || t
        == PERF_COUNTER_LARGE_DELTA {
        Some(SampleSource { data: Width::Large, time: TimeSource::Zero, frequency: FrequencySource::Zero })
    } else if t == PERF_100NSEC_TIMER || t == PERF_100NSEC_TIMER_INV || t == PERF_100NSEC_MULTI_TIMER
        || t == PERF_100NSEC_MULTI_TIMER_INV {
        Some(SampleSource { data: Width::Large, time: TimeSource::System100ns, frequency: FrequencySource::Zero })
    } else if t == PERF_SAMPLE_FRACTION || t == PERF_RAW_FRACTION {
        Some(SampleSource { data: Width::Dword, time: TimeSource::BaseDword, frequency: FrequencySource::Zero })
    } else if t == PERF_LARGE_RAW_FRACTION || t == PERF_PRECISION_SYSTEM_TIMER || t
        == PERF_PRECISION_100NS_TIMER || t == PERF_PRECISION_OBJECT_TIMER {
        Some(SampleSource { data: Width::Large, time: TimeSource::BaseLarge, frequency: FrequencySource::Zero })
    } else if t == PERF_AVERAGE_TIMER {
        Some(SampleSource { data: Width::Large, time: TimeSource::BaseDword, frequency: FrequencySource::System })
    } else if t == PERF_AVERAGE_BULK {
        Some(SampleSource { data: Width::Large, time: TimeSource::BaseDword, frequency: FrequencySource::Zero })
    } else if t == PERF_ELAPSED_TIME {
        Some(SampleSource { data: Width::Large, time: TimeSource::Object, frequency: FrequencySource::Object })
    } else {
        None
    }
}

/// The value of this width at `off` in the counter block, if the block holds it.
pub open spec fn value_at(w: Width, block: Seq<u8>, off: int) -> Option<u64> {
    match w {
        Width::Dword => if off + 4 <= block.len() {
            Some(u32_at(block, off) as u64)
        } else {
            None
        },
        Width::Large => if off + 8 <= block.len() {
            Some(u64_at(block, off))
        } else {
            None
        },
    }
}

fn read_value(w: Width, block: &[u8], off: u32) -> (r: Option<u64>)
    ensures
        r == value_at(w, block@, off as int),
{
    let n = block.len() as u64;
    match w {
        Width::Dword => if off as u64 + 4 <= n {
            Some(read_u32(block, off as usize) as u64)
        } else {
            None
        },
        Width::Large => if off as u64 + 8 <= n {
            Some(read_u64(block, off as usize))
        } else {
            None
        },
    }
}

/// The time of a sample: a time of the data block or of the object, or the value of the
/// next counter.
pub open spec fn sample_time(
    src: TimeSource,
    perf_data: PERF_DATA_BLOCK,
    object: PERF_OBJECT_TYPE,
    counters: Seq<PERF_COUNTER_DEFINITION>,
    index: int,
    block: Seq<u8>,
) -> Option<i64> {
    match src {
        TimeSource::Zero => Some(0),
        TimeSource::System => Some(perf_data.PerfTime),
        TimeSource::System100ns => Some(perf_data.PerfTime100nSec),
        TimeSource::Object => Some(object.PerfTime),
        TimeSource::BaseDword => if index + 1 < counters.len() && has_base_bits(counters[index + 1].CounterType) {
            match value_at(Width::Dword, block, counters[index + 1].CounterOffset as int) {
                Some(v) => Some(v as i64),
                None => None,
            }
        } else {
            None
        },
        TimeSource::BaseLarge => if index + 1 < counters.len() && has_base_bits(counters[index + 1].CounterType) {
            match value_at(Width::Large, block, counters[index + 1].CounterOffset as int) {
                Some(v) => Some(v as i64),
                None => None,
            }
        } else {
            None
        },
    }
}

/// The frequency of a sample.
pub open spec fn sample_frequency(src: FrequencySource, perf_data: PERF_DATA_BLOCK, object: PERF_OBJECT_TYPE) -> i64 {
    match src {
        FrequencySource::Zero => 0,
        FrequencySource::System => perf_data.PerfFreq,
        FrequencySource::Object => object.PerfFreq,
    }
}

/// The count of items of a multi-item counter: the 32 bits eight bytes after its value;
/// zero for other counters.
pub open spec fn sample_multi(t: u32, block: Seq<u8>, off: int) -> Option<u32> {
    if t & PERF_MULTI_COUNTER == PERF_MULTI_COUNTER {
        if off + 12 <= block.len() {
            Some(u32_at(block, off + 8))
        } else {
            None
        }
    } else {
        Some(0)
    }
}

/// The sample of counter `index` of `counters`, read from the bytes of its counter block.
pub open spec fn spec_sample(
    perf_data: PERF_DATA_BLOCK,
    object: PERF_OBJECT_TYPE,
    counters: Seq<PERF_COUNTER_DEFINITION>,
    index: int,
    block: Seq<u8>,
) -> Option<SampleView> {
    let c = counters[index];
    let t = c.CounterType;
    if !definition_valid(t) {
        None
    } else {
        match spec_sample_source(t) {
            None => None,
            Some(src) => match (
                value_at(src.data, block, c.CounterOffset as int),
                sample_time(src.time, perf_data, object, counters, index, block),
                sample_multi(t, block, c.CounterOffset as int),
            ) {
                (Some(data), Some(time), Some(multi)) => Some(
                    SampleView {
                        counter_type: normalized_raw(t),
                        data,
                        time,
                        multi,
                        frequency: sample_frequency(src.frequency, perf_data, object),
                    },
                ),
                _ => None,
            },
        }
    }
}

/// The sample of counter `index` of the object's `counters`, whose counter block has the
/// bytes `block`. Base counters, texts, counters without data, histograms, unknown types
/// and values that the block does not hold give no sample.
pub fn get_sample(
    perf_data: &PERF_DATA_BLOCK,
    object: &PERF_OBJECT_TYPE,
    counters: &[PERF_COUNTER_DEFINITION],
    index: usize,
    block: &[u8],
) -> (r: Result<Sample, ()>)
    requires
        index < counters@.len(),
    ensures
        match r {
            Ok(s) => spec_sample(*perf_data, *object, counters@, index as int, block@) == Some(s@),
            Err(_) => spec_sample(*perf_data, *object, counters@, index as int, block@) is None,
        },
        r matches Ok(s) ==> {
            let t = counters@[index as int].CounterType;
            &&& (type_field(t) == 0 || subtype_field(t) == 0) ==> s.Time == 0
            &&& (type_field(t) == 1 && subtype_field(t) != 0 && subtype_field(t) != 2 && subtype_field(t) != 7)
                ==> s.Time == (if timer_field(t) == 0 {
                perf_data.PerfTime
            } else if timer_field(t) == 1 {
                perf_data.PerfTime100nSec
            } else {
                object.PerfTime
            })
        },
{
    proof {
        lemma_sample_source_follows_type(counters@[index as int].CounterType);
    }
    let counter = &counters[index];
    let t = counter.CounterType;
    let counter_type = match CounterTypeDefinition::from_raw(t) {
        Some(d) => d,
        None => return Err(()),
    };
    let src = match sample_source(t) {
        Some(s) => s,
        None => return Err(()),
    };
    let data = match read_value(src.data, block, counter.CounterOffset) {
        Some(v) => v,
        None => return Err(()),
    };
    let time: i64 = match src.time {
        TimeSource::Zero => 0,
        TimeSource::System => perf_data.PerfTime,
        TimeSource::System100ns => perf_data.PerfTime100nSec,
        TimeSource::Object => object.PerfTime,
        TimeSource::BaseDword => {
            if index + 1 >= counters.len() {
                return Err(());
            }
            if counters[index + 1].CounterType & PERF_COUNTER_BASE != PERF_COUNTER_BASE {
                return Err(());
            }
            match read_value(Width::Dword, block, counters[index + 1].CounterOffset) {
                Some(v) => v as i64,
                None => return Err(()),
            }
        },
        TimeSource::BaseLarge => {
            if index + 1 >= counters.len() {
                return Err(());
            }
            if counters[index + 1].CounterType & PERF_COUNTER_BASE != PERF_COUNTER_BASE {
                return Err(());
            }
            match read_value(Width::Large, block, counters[index + 1].CounterOffset) {
                Some(v) => v as i64,
                None => return Err(()),
            }
        },
    };
    let frequency: i64 = match src.frequency {
        FrequencySource::Zero => 0,
        FrequencySource::System => perf_data.PerfFreq,
        FrequencySource::Object => object.PerfFreq,
    };
    let multi: u32 = if t & PERF_MULTI_COUNTER == PERF_MULTI_COUNTER {
        let off = counter.CounterOffset as u64;
        if off + 12 > block.len() as u64 {
            return Err(());
        }
        read_u32(block, (off + 8) as usize)
    } else {
        0
    };
    Ok(Sample { CounterType: counter_type, Data: data, Time: time, MultiCounterData: multi, Frequency: frequency })
}

/// How a counter's shown value is computed from its samples; the first sample is `new`,
/// the second `old`, and differences are taken as the second minus the first.
#[derive(Clone, Copy, Debug, PartialEq, Eq, Structural)]
pub enum Formula {
    /// `numerator / (denominator / frequency)`, per second unless a sampled counter.
    Rate { numerator: u64, denominator: i64, frequency: i64, per_second: bool },
    /// `numerator / denominator`.
    Ratio { numerator: u64, denominator: i64 },
    /// Nothing is shown.
    Hidden,
    /// `100 * numerator / denominator`, in percent.
    Percent { numerator: u64, denominator: i64 },
    /// `100 * (1 - numerator / denominator)`, in percent.
    InversePercent { numerator: u64, denominator: i64 },
    /// `100 * (numerator / denominator) / multi`, in percent.
    MultiPercent { numerator: u64, denominator: i64, multi: u32 },
    /// `100 * (multi - numerator / denominator)`, in percent.
    InverseMultiPercent { numerator: u64, denominator: i64, multi: u32 },
    /// The value in decimal.
    Decimal(u64),
    /// The value in hexadecimal.
    Hex(u64),
    /// The difference of the values.
    Delta(u64),
    /// `100 * data / base`, in percent.
    RawFraction { data: u64, base: i64 },
    /// `numerator / frequency / denominator`, in seconds.
    AverageTime { numerator: u64, frequency: i64, denominator: i64 },
    /// `(time - data) / frequency`, in seconds.
    Elapsed { time: i64, data: u64, frequency: i64 },
}

/// Why no value can be shown.
#[derive(Clone, Copy, Debug, PartialEq, Eq, Structural)]
pub enum CalculationError {
    /// The counter type requires two samples but only one was given.
    TwoSamplesNeeded,
    /// The time of the first sample is later than the time of the second.
    SamplesOutOfOrder { first: i64, second: i64 },
    /// The counter type has no formula.
    UnknownType,
    /// Bad data from the provider: the data of the second sample is smaller than the data
    /// of the first.
    DataOutOfOrder { first: u64, second: u64 },
    /// The times of the two samples are too far apart for their difference to be counted.
    TimesTooFarApart { first: i64, second: i64 },
    /// The tick frequency of the second sample is zero, so ticks cannot be turned into time.
    NoFrequency,
}

/// The kinds of formulas, by counter type.
#[derive(Clone, Copy, Debug, PartialEq, Eq, Structural)]
pub enum FormulaKind {
    Rate,
    Ratio,
    Hidden,
    Percent,
    InversePercent,
    MultiPercentTicks,
    MultiPercent100ns,
    InverseMultiPercent,
    Decimal,
    Hex,
    Delta,
    RawFraction,
    AverageTime,
    Elapsed,
}

/// The kind of formula of a counter type.
pub open spec fn spec_formula_kind(t: u32) -> Option<FormulaKind> {
    if t == PERF_COUNTER_COUNTER || t == PERF_SAMPLE_COUNTER || t == PERF_COUNTER_BULK_COUNT {
        Some(FormulaKind::Rate)
    } else if t == PERF_COUNTER_QUEUELEN_TYPE || t == PERF_COUNTER_100NS_QUEUELEN_TYPE || t
        == PERF_COUNTER_OBJ_TIME_QUEUELEN_TYPE || t == PERF_COUNTER_LARGE_QUEUELEN_TYPE {
        Some(FormulaKind::Ratio)
    } else if t == PERF_AVERAGE_BULK {
        Some(FormulaKind::Hidden)
    } else if t == PERF_OBJ_TIME_TIMER || t == PERF_COUNTER_TIMER || t == PERF_100NSEC_TIMER || t
        == PERF_PRECISION_SYSTEM_TIMER || t == PERF_PRECISION_100NS_TIMER || t
        == PERF_PRECISION_OBJECT_TIMER || t == PERF_SAMPLE_FRACTION {
        Some(FormulaKind::Percent)
    } else if t == PERF_COUNTER_TIMER_INV || t == PERF_100NSEC_TIMER_INV {
        Some(FormulaKind::InversePercent)
    } else if t == PERF_COUNTER_MULTI_TIMER {
        Some(FormulaKind::MultiPercentTicks)
    } else if t == PERF_100NSEC_MULTI_TIMER {
        Some(FormulaKind::MultiPercent100ns)
    } else if t == PERF_COUNTER_MULTI_TIMER_INV || t == PERF_100NSEC_MULTI_TIMER_INV {
        Some(FormulaKind::InverseMultiPercent)
    } else if t == PERF_COUNTER_RAWCOUNT || t == PERF_COUNTER_LARGE_RAWCOUNT {
        Some(FormulaKind::Decimal)
    } else if t == PERF_COUNTER_RAWCOUNT_HEX || t == PERF_COUNTER_LARGE_RAWCOUNT_HEX {
        Some(FormulaKind::Hex)
    } else if t == PERF_COUNTER_DELTA || t == PERF_COUNTER_LARGE_DELTA {
        Some(FormulaKind::Delta)
    } else if t == PERF_RAW_FRACTION || t == PERF_LARGE_RAW_FRACTION {
        Some(FormulaKind::RawFraction)
    } else if t == PERF_AVERAGE_TIMER {
        Some(FormulaKind::AverageTime)
    } else if t == PERF_ELAPSED_TIME {
        Some(FormulaKind::Elapsed)
    } else {
        None
    }
}

/// The kind of formula of a counter type.
pub fn formula_kind(t: u32) -> (r: Option<FormulaKind>)
    ensures
        r == spec_formula_kind(t),
        r matches Some(k) ==> kind_fits_fields(k, t),
{
    proof {
        lemma_formula_kind_follows_type(t);
    }
    if t == PERF_COUNTER_COUNTER || t == PERF_SAMPLE_COUNTER || t == PERF_COUNTER_BULK_COUNT {
        Some(FormulaKind::Rate)
    } else if t == PERF_COUNTER_QUEUELEN_TYPE || t == PERF_COUNTER_100NS_QUEUELEN_TYPE || t
        == PERF_COUNTER_OBJ_TIME_QUEUELEN_TYPE || t == PERF_COUNTER_LARGE_QUEUELEN_TYPE {
        Some(FormulaKind::Ratio)
    } else if t == PERF_AVERAGE_BULK {
        Some(FormulaKind::Hidden)
    } else if t == PERF_OBJ_TIME_TIMER || t == PERF_COUNTER_TIMER || t == PERF_100NSEC_TIMER || t
        == PERF_PRECISION_SYSTEM_TIMER || t == PERF_PRECISION_100NS_TIMER || t
        == PERF_PRECISION_OBJECT_TIMER || t == PERF_SAMPLE_FRACTION {
        Some(FormulaKind::Percent)
    } else if t == PERF_COUNTER_TIMER_INV || t == PERF_100NSEC_TIMER_INV {
        Some(FormulaKind::InversePercent)
    } else if t == PERF_COUNTER_MULTI_TIMER {
        Some(FormulaKind::MultiPercentTicks)
    } else if t == PERF_100NSEC_MULTI_TIMER {
        Some(FormulaKind::MultiPercent100ns)
    } else if t == PERF_COUNTER_MULTI_TIMER_INV || t == PERF_100NSEC_MULTI_TIMER_INV {
        Some(FormulaKind::InverseMultiPercent)
    } else if t == PERF_COUNTER_RAWCOUNT || t == PERF_COUNTER_LARGE_RAWCOUNT {
        Some(FormulaKind::Decimal)
    } else if t == PERF_COUNTER_RAWCOUNT_HEX || t == PERF_COUNTER_LARGE_RAWCOUNT_HEX {
        Some(FormulaKind::Hex)
    } else if t == PERF_COUNTER_DELTA || t == PERF_COUNTER_LARGE_DELTA {
        Some(FormulaKind::Delta)
    } else if t == PERF_RAW_FRACTION || t == PERF_LARGE_RAW_FRACTION {
        Some(FormulaKind::RawFraction)
    } else if t == PERF_AVERAGE_TIMER {
        Some(FormulaKind::AverageTime)
    } else if t == PERF_ELAPSED_TIME {
        Some(FormulaKind::Elapsed)
    } else {
        None
    }
}

/// The type field of a counter type (`<WinPerf.h>`, bits 10 and 11): 0 a number, 1 a
/// counter, 2 a text, 3 no value.
pub open spec fn type_field(t: u32) -> int {
    (t / 0x400) as int % 4
}

/// The subtype field of a counter type (bits 16 to 19). For a counter: 0 a value, 1 a
/// rate, 2 a fraction, 3 a base, 4 an elapsed time, 5 a queue length, 6 a histogram, 7 a
/// precision timer; for a number: 0 hexadecimal, 1 decimal, 2 decimal divided by 1000.
pub open spec fn subtype_field(t: u32) -> int {
    (t / 0x1_0000) as int % 16
}

/// The timer field of a counter type (bits 20 and 21): 0 the system tick, 1 the 100 ns
/// system clock, 2 the object's own timer.
pub open spec fn timer_field(t: u32) -> int {
    (t / 0x10_0000) as int % 4
}

/// Whether the counter type's value is a difference of two samples (bit 22).
pub open spec fn delta_flag(t: u32) -> bool {
    (t / 0x40_0000) as int % 2 == 1
}

/// Whether the counter type's value is shown as its complement (bit 24).
pub open spec fn inverse_flag(t: u32) -> bool {
    (t / 0x100_0000) as int % 2 == 1
}

/// Whether the counter type counts several items (bit 25).
pub open spec fn multi_flag(t: u32) -> bool {
    (t / 0x200_0000) as int % 2 == 1
}

/// The display field of a counter type (bits 28 to 31): 0 no suffix, 1 per second, 2
/// percent, 3 seconds, 4 not shown.
pub open spec fn display_field(t: u32) -> int {
    (t / 0x1000_0000) as int
}

/// Whether the fields of the counter type `t` are those that `<WinPerf.h>` documents for
/// the kind of formula `k`.
pub open spec fn kind_fits_fields(k: FormulaKind, t: u32) -> bool {
    match k {
        FormulaKind::Rate => type_field(t) == 1 && subtype_field(t) == 1 && timer_field(t) == 0 && delta_flag(t)
            && !inverse_flag(t) && !multi_flag(t) && (display_field(t) == 0 || display_field(t) == 1),
        FormulaKind::Ratio => type_field(t) == 1 && subtype_field(t) == 5 && delta_flag(t) && display_field(t) == 0,
        FormulaKind::Hidden => display_field(t) == 4,
        FormulaKind::Percent => type_field(t) == 1 && (subtype_field(t) == 1 || subtype_field(t) == 2
            || subtype_field(t) == 7) && delta_flag(t) && !inverse_flag(t) && !multi_flag(t) && display_field(t) == 2,
        FormulaKind::InversePercent => type_field(t) == 1 && subtype_field(t) == 1 && delta_flag(t) && inverse_flag(t)
            && !multi_flag(t) && display_field(t) == 2,
        FormulaKind::MultiPercentTicks => type_field(t) == 1 && subtype_field(t) == 1 && timer_field(t) == 0
            && !inverse_flag(t) && multi_flag(t) && display_field(t) == 2,
        FormulaKind::MultiPercent100ns => type_field(t) == 1 && subtype_field(t) == 1 && timer_field(t) == 1
            && !inverse_flag(t) && multi_flag(t) && display_field(t) == 2,
        FormulaKind::InverseMultiPercent => type_field(t) == 1 && subtype_field(t) == 1 && inverse_flag(t) && multi_flag(
            t,
        ) && display_field(t) == 2,
        FormulaKind::Decimal => type_field(t) == 0 && subtype_field(t) == 1,
        FormulaKind::Hex => type_field(t) == 0 && subtype_field(t) == 0,
        FormulaKind::Delta => type_field(t) == 1 && subtype_field(t) == 0 && delta_flag(t),
        FormulaKind::RawFraction => type_field(t) == 1 && subtype_field(t) == 2 && !delta_flag(t) && display_field(t)
            == 2,
        FormulaKind::AverageTime => type_field(t) == 1 && subtype_field(t) == 2 && display_field(t) == 3,
        FormulaKind::Elapsed => type_field(t) == 1 && subtype_field(t) == 4 && display_field(t) == 3,
    }
}

/// The numbers of the counter types that have a formula.
proof fn lemma_counter_type_numbers()
    by (bit_vector)
    ensures
        PERF_COUNTER_COUNTER == 0x1041_0400u32,
        PERF_SAMPLE_COUNTER == 0x0041_0400u32,
        PERF_COUNTER_BULK_COUNT == 0x1041_0500u32,
        PERF_COUNTER_QUEUELEN_TYPE == 0x0045_0400u32,
        PERF_COUNTER_100NS_QUEUELEN_TYPE == 0x0055_0500u32,
        PERF_COUNTER_OBJ_TIME_QUEUELEN_TYPE == 0x0065_0500u32,
        PERF_COUNTER_LARGE_QUEUELEN_TYPE == 0x0045_0500u32,
        PERF_AVERAGE_BULK == 0x4002_0500u32,
        PERF_OBJ_TIME_TIMER == 0x2061_0500u32,
        PERF_COUNTER_TIMER == 0x2041_0500u32,
        PERF_100NSEC_TIMER == 0x2051_0500u32,
        PERF_PRECISION_SYSTEM_TIMER == 0x2047_0500u32,
        PERF_PRECISION_100NS_TIMER == 0x2057_0500u32,
        PERF_PRECISION_OBJECT_TIMER == 0x2067_0500u32,
        PERF_SAMPLE_FRACTION == 0x20C2_0400u32,
        PERF_COUNTER_TIMER_INV == 0x2141_0500u32,
        PERF_100NSEC_TIMER_INV == 0x2151_0500u32,
        PERF_COUNTER_MULTI_TIMER == 0x2241_0500u32,
        PERF_100NSEC_MULTI_TIMER == 0x2251_0500u32,
        PERF_COUNTER_MULTI_TIMER_INV == 0x2341_0500u32,
        PERF_100NSEC_MULTI_TIMER_INV == 0x2351_0500u32,
        PERF_COUNTER_RAWCOUNT == 0x0001_0000u32,
        PERF_COUNTER_LARGE_RAWCOUNT == 0x0001_0100u32,
        PERF_COUNTER_RAWCOUNT_HEX == 0x0000_0000u32,
        PERF_COUNTER_LARGE_RAWCOUNT_HEX == 0x0000_0100u32,
        PERF_COUNTER_DELTA == 0x0040_0400u32,
        PERF_COUNTER_LARGE_DELTA == 0x0040_0500u32,
        PERF_RAW_FRACTION == 0x2002_0400u32,
        PERF_LARGE_RAW_FRACTION == 0x2002_0500u32,
        PERF_AVERAGE_TIMER == 0x3002_0400u32,
        PERF_ELAPSED_TIME == 0x3024_0500u32,
{
}

/// Law: the kind of formula of a counter type is the one that its fields call for, as
/// `<WinPerf.h>` documents them: a rate for a delta counter of rate subtype on the system
/// tick, a percent of a timer for a delta timer shown in percent, its complement exactly
/// when the inverse flag is set, a multi-item percent exactly when the multi flag is set,
/// a queue length ratio, a fraction, an average time, an elapsed time, or a number.
pub proof fn lemma_formula_kind_follows_type(t: u32)
    ensures
        spec_formula_kind(t) matches Some(k) ==> kind_fits_fields(k, t),
{
    lemma_counter_type_numbers();
}

/// Law: where the time of a sample comes from follows the fields of its counter type: no
/// time for a number or a plain value, the next (base) counter for a fraction or a
/// precision timer, and otherwise the clock of its timer field, the system tick, the 100 ns
/// system clock or the object's timer; a frequency is the system's only for the tick and
/// the object's only for the object's timer.
pub proof fn lemma_sample_source_follows_type(t: u32)
    ensures
        spec_sample_source(t) matches Some(src) ==> {
            &&& (src.time is Zero <==> (type_field(t) == 0 || subtype_field(t) == 0))
            &&& ((src.time is BaseDword || src.time is BaseLarge) <==> (type_field(t) == 1 && (subtype_field(t) == 2
                || subtype_field(t) == 7)))
            &&& (src.time is System ==> timer_field(t) == 0)
            &&& (src.time is System100ns ==> timer_field(t) == 1)
            &&& (src.time is Object ==> timer_field(t) == 2)
            &&& (src.frequency is System ==> timer_field(t) == 0)
            &&& (src.frequency is Object ==> timer_field(t) == 2)
        },
{
    lemma_counter_type_numbers();
}

/// Whether the formula takes the difference of the values of the two samples.
pub open spec fn takes_data_difference(k: FormulaKind) -> bool {
    !(k is Hidden || k is Decimal || k is Hex || k is RawFraction || k is Elapsed)
}

/// Whether the formula takes the difference of the times of the two samples.
pub open spec fn takes_time_difference(k: FormulaKind) -> bool {
    takes_data_difference(k) && !(k is Delta)
}

/// `x / f`, rounded toward zero, for `x >= 0`.
pub open spec fn div_toward_zero(x: int, f: int) -> int {
    if f > 0 {
        x / f
    } else {
        -(x / (-f))
    }
}

/// The formula for two samples, or why there is none. A counter type with the delta
/// modifier needs two samples, and the first may not be later than the second.
pub open spec fn spec_formula(new: SampleView, old: Option<SampleView>) -> Result<Formula, CalculationError> {
    let t = new.counter_type;
    if t & PERF_DELTA_COUNTER == PERF_DELTA_COUNTER && old is None {
        Err(CalculationError::TwoSamplesNeeded)
    } else if old matches Some(o) && new.time > o.time {
        Err(CalculationError::SamplesOutOfOrder { first: new.time, second: old->0.time })
    } else {
        match spec_formula_kind(t) {
            None => Err(CalculationError::UnknownType),
            Some(k) => if (takes_data_difference(k) || k is MultiPercentTicks) && old is None {
                Err(CalculationError::TwoSamplesNeeded)
            } else if takes_data_difference(k) && old->0.data < new.data {
                Err(CalculationError::DataOutOfOrder { first: new.data, second: old->0.data })
            } else if takes_time_difference(k) && old->0.time - new.time > i64::MAX {
                Err(CalculationError::TimesTooFarApart { first: new.time, second: old->0.time })
            } else if k is MultiPercentTicks && old->0.frequency == 0 {
                Err(CalculationError::NoFrequency)
            } else {
                let o = old->0;
                let n = (o.data - new.data) as u64;
                let d = (o.time - new.time) as i64;
                Ok(
                    match k {
                        FormulaKind::Rate => Formula::Rate {
                            numerator: n,
                            denominator: d,
                            frequency: o.frequency,
                            per_second: t != PERF_SAMPLE_COUNTER,
                        },
                        FormulaKind::Ratio => Formula::Ratio { numerator: n, denominator: d },
                        FormulaKind::Hidden => Formula::Hidden,
                        FormulaKind::Percent => Formula::Percent { numerator: n, denominator: d },
                        FormulaKind::InversePercent => Formula::InversePercent { numerator: n, denominator: d },
                        FormulaKind::MultiPercentTicks => Formula::MultiPercent {
                            numerator: n,
                            denominator: div_toward_zero(d as int, o.frequency as int) as i64,
                            multi: o.multi,
                        },
                        FormulaKind::MultiPercent100ns => Formula::MultiPercent { numerator: n, denominator: d, multi: o.multi },
                        FormulaKind::InverseMultiPercent => Formula::InverseMultiPercent {
                            numerator: n,
                            denominator: d,
                            multi: o.multi,
                        },
                        FormulaKind::Decimal => Formula::Decimal(new.data),
                        FormulaKind::Hex => Formula::Hex(new.data),
                        FormulaKind::Delta => Formula::Delta(n),
                        FormulaKind::RawFraction => Formula::RawFraction { data: new.data, base: new.time },
                        FormulaKind::AverageTime => Formula::AverageTime {
                            numerator: n,
                            frequency: o.frequency,
                            denominator: d,
                        },
                        FormulaKind::Elapsed => Formula::Elapsed { time: new.time, data: new.data, frequency: new.frequency },
                    },
                )
            },
        }
    }
}

/// Law: the formula for a first sample `new` and a second sample `old` is the one that
/// the counter type's fields call for, and it is made of what the samples measure: the
/// growth of the data from the first sample to the second over the time between them for
/// the formulas of two samples, and the first sample's own data for a number or a raw
/// fraction.
pub proof fn lemma_formula_follows_samples(new: SampleView, old: SampleView)
    ensures
        spec_formula(new, Some(old)) matches Ok(f) ==> {
            let t = new.counter_type;
            let growth = old.data - new.data;
            let elapsed = old.time - new.time;
            &&& (f matches Formula::Rate { numerator, denominator, frequency, .. } ==> kind_fits_fields(
                FormulaKind::Rate,
                t,
            ) && numerator == growth && denominator == elapsed && frequency == old.frequency)
            &&& (f matches Formula::Ratio { numerator, denominator } ==> kind_fits_fields(FormulaKind::Ratio, t)
                && numerator == growth && denominator == elapsed)
            &&& (f matches Formula::Percent { numerator, denominator } ==> kind_fits_fields(FormulaKind::Percent, t)
                && numerator == growth && denominator == elapsed)
            &&& (f matches Formula::InversePercent { numerator, denominator } ==> kind_fits_fields(
                FormulaKind::InversePercent,
                t,
            ) && numerator == growth && denominator == elapsed)
            &&& (f matches Formula::MultiPercent { numerator, multi, .. } ==> multi_flag(t) && !inverse_flag(t)
                && display_field(t) == 2 && numerator == growth && multi == old.multi)
            &&& (f matches Formula::InverseMultiPercent { numerator, denominator, multi } ==> kind_fits_fields(
                FormulaKind::InverseMultiPercent,
                t,
            ) && numerator == growth && denominator == elapsed && multi == old.multi)
            &&& (f matches Formula::Delta(n) ==> kind_fits_fields(FormulaKind::Delta, t) && n == growth)
            &&& (f matches Formula::Decimal(v) ==> kind_fits_fields(FormulaKind::Decimal, t) && v == new.data)
            &&& (f matches Formula::Hex(v) ==> kind_fits_fields(FormulaKind::Hex, t) && v == new.data)
            &&& (f matches Formula::RawFraction { data, base } ==> kind_fits_fields(FormulaKind::RawFraction, t)
                && data == new.data && base == new.time)
            &&& (f matches Formula::AverageTime { numerator, frequency, denominator } ==> kind_fits_fields(
                FormulaKind::AverageTime,
                t,
            ) && numerator == growth && denominator == elapsed && frequency == old.frequency)
            &&& (f matches Formula::Elapsed { time, data, frequency } ==> kind_fits_fields(FormulaKind::Elapsed, t)
                && time == new.time && data == new.data && frequency == new.frequency)
            &&& (f is Hidden ==> kind_fits_fields(FormulaKind::Hidden, t))
        },
{
    lemma_formula_kind_follows_type(new.counter_type);
}

/// `x / f` rounded toward zero, for `x >= 0` and `f != 0`.
fn div_toward_zero_exec(x: i64, f: i64) -> (r: i64)
    requires
        x >= 0,
        f != 0,
    ensures
        r == div_toward_zero(x as int, f as int),
{
    if f > 0 {
        x / f
    } else {
        let m: u64 = if f == i64::MIN {
            0x8000_0000_0000_0000u64
        } else {
            (-f) as u64
        };
        let q = (x as u64) / m;
        assert(q <= x) by (nonlinear_arith)
            requires
                q == (x as u64) / m,
                m >= 1,
                x >= 0,
        ;
        -(q as i64)
    }
}

/// The formula that turns the samples into the value shown for the counter, or why there
/// is none.
pub fn formula(new: &Sample, old: Option<&Sample>) -> (r: Result<Formula, CalculationError>)
    ensures
        r == spec_formula(new@, match old {
            Some(o) => Some(o@),
            None => None,
        }),
{
    let t = new.CounterType.into_raw();
    if t & PERF_DELTA_COUNTER == PERF_DELTA_COUNTER && old.is_none() {
        return Err(CalculationError::TwoSamplesNeeded);
    }
    if let Some(o) = old {
        if new.Time > o.Time {
            return Err(CalculationError::SamplesOutOfOrder { first: new.Time, second: o.Time });
        }
    }
    let k = match formula_kind(t) {
        None => return Err(CalculationError::UnknownType),
        Some(k) => k,
    };
    let data_diff = !(matches!(k, FormulaKind::Hidden) || matches!(k, FormulaKind::Decimal)
        || matches!(k, FormulaKind::Hex) || matches!(k, FormulaKind::RawFraction)
        || matches!(k, FormulaKind::Elapsed));
    let time_diff = data_diff && !matches!(k, FormulaKind::Delta);
    let ticks = matches!(k, FormulaKind::MultiPercentTicks);
    if (data_diff || ticks) && old.is_none() {
        return Err(CalculationError::TwoSamplesNeeded);
    }
    if let Some(o) = old {
        if data_diff && o.Data < new.Data {
            return Err(CalculationError::DataOutOfOrder { first: new.Data, second: o.Data });
        }
        if time_diff && o.Time as i128 - new.Time as i128 > i64::MAX as i128 {
            return Err(CalculationError::TimesTooFarApart { first: new.Time, second: o.Time });
        }
        if ticks && o.Frequency == 0 {
            return Err(CalculationError::NoFrequency);
        }
    }
    match k {
        FormulaKind::Hidden => Ok(Formula::Hidden),
        FormulaKind::Decimal => Ok(Formula::Decimal(new.Data)),
        FormulaKind::Hex => Ok(Formula::Hex(new.Data)),
        FormulaKind::RawFraction => Ok(Formula::RawFraction { data: new.Data, base: new.Time }),
        FormulaKind::Elapsed => Ok(Formula::Elapsed { time: new.Time, data: new.Data, frequency: new.Frequency }),
        FormulaKind::Delta => {
            let o = old.unwrap();
            Ok(Formula::Delta(o.Data - new.Data))
        },
        _ => {
            let o = old.unwrap();
            let n = o.Data - new.Data;
            let d = o.Time - new.Time;
            Ok(
                match k {
                    FormulaKind::Rate => Formula::Rate {
                        numerator: n,
                        denominator: d,
                        frequency: o.Frequency,
                        per_second: t != PERF_SAMPLE_COUNTER,
                    },
                    FormulaKind::Ratio => Formula::Ratio { numerator: n, denominator: d },
                    FormulaKind::Percent => Formula::Percent { numerator: n, denominator: d },
                    FormulaKind::InversePercent => Formula::InversePercent { numerator: n, denominator: d },
                    FormulaKind::MultiPercentTicks => Formula::MultiPercent {
                        numerator: n,
                        denominator: div_toward_zero_exec(d, o.Frequency),
                        multi: o.MultiCounterData,
                    },
                    FormulaKind::MultiPercent100ns => Formula::MultiPercent { numerator: n, denominator: d, multi: o.MultiCounterData },
                    FormulaKind::InverseMultiPercent => Formula::InverseMultiPercent {
                        numerator: n,
                        denominator: d,
                        multi: o.MultiCounterData,
                    },
                    _ => Formula::AverageTime { numerator: n, frequency: o.Frequency, denominator: d },
                },
            )
        },
    }
}

} // verus!
