//! The `PERF_COUNTER_DEFINITION.CounterType` field of `<WinPerf.h>`:
//!
//! ```txt
//!   3      2        2    2    2        1        1    1
//!   1      8        4    2    0        6        2    0    8                0
//!  +--------+--------+----+----+--------+--------+----+----+----------------+
//!  |Display |Calculation  |Time|Counter |        |Ctr |Size|                |
//!  |Flags   |Modifiers    |Base|SubType |Reserved|Type|Fld |   Reserved     |
//!  +--------+--------+----+----+--------+--------+----+----+----------------+
//! ```
use vstd::prelude::*;

verus! {

pub const PERF_SIZE_DWORD: u32 = 0x0000_0000;
pub const PERF_SIZE_LARGE: u32 = 0x0000_0100;
pub const PERF_SIZE_ZERO: u32 = 0x0000_0200;
pub const PERF_SIZE_VARIABLE_LEN: u32 = 0x0000_0300;
pub const PERF_TYPE_NUMBER: u32 = 0x0000_0000;
pub const PERF_TYPE_COUNTER: u32 = 0x0000_0400;
pub const PERF_TYPE_TEXT: u32 = 0x0000_0800;
pub const PERF_TYPE_ZERO: u32 = 0x0000_0C00;
pub const PERF_NUMBER_HEX: u32 = 0x0000_0000;
pub const PERF_NUMBER_DECIMAL: u32 = 0x0001_0000;
pub const PERF_NUMBER_DEC_1000: u32 = 0x0002_0000;
pub const PERF_COUNTER_VALUE: u32 = 0x0000_0000;
pub const PERF_COUNTER_RATE: u32 = 0x0001_0000;
pub const PERF_COUNTER_FRACTION: u32 = 0x0002_0000;
pub const PERF_COUNTER_BASE: u32 = 0x0003_0000;
pub const PERF_COUNTER_ELAPSED: u32 = 0x0004_0000;
pub const PERF_COUNTER_QUEUELEN: u32 = 0x0005_0000;
pub const PERF_COUNTER_HISTOGRAM: u32 = 0x0006_0000;
pub const PERF_COUNTER_PRECISION: u32 = 0x0007_0000;
pub const PERF_TEXT_UNICODE: u32 = 0x0000_0000;
pub const PERF_TEXT_ASCII: u32 = 0x0001_0000;
pub const PERF_TIMER_TICK: u32 = 0x0000_0000;
pub const PERF_TIMER_100NS: u32 = 0x0010_0000;
pub const PERF_OBJECT_TIMER: u32 = 0x0020_0000;
pub const PERF_DELTA_COUNTER: u32 = 0x0040_0000;
pub const PERF_DELTA_BASE: u32 = 0x0080_0000;
pub const PERF_INVERSE_COUNTER: u32 = 0x0100_0000;
pub const PERF_MULTI_COUNTER: u32 = 0x0200_0000;
pub const PERF_DISPLAY_NO_SUFFIX: u32 = 0x0000_0000;
pub const PERF_DISPLAY_PER_SEC: u32 = 0x1000_0000;
pub const PERF_DISPLAY_PERCENT: u32 = 0x2000_0000;
pub const PERF_DISPLAY_SECONDS: u32 = 0x3000_0000;
pub const PERF_DISPLAY_NOSHOW: u32 = 0x4000_0000;
pub const PERF_DETAIL_NOVICE: u32 = 100;
pub const PERF_DETAIL_ADVANCED: u32 = 200;
pub const PERF_DETAIL_EXPERT: u32 = 300;
pub const PERF_DETAIL_WIZARD: u32 = 400;

/// A 32-bit number shown in decimal as is.
pub const PERF_COUNTER_RAWCOUNT: u32 = 0x0001_0000;
/// A 64-bit number shown in decimal as is.
pub const PERF_COUNTER_LARGE_RAWCOUNT: u32 = 0x0001_0100;
/// A variable-length UTF-16 text.
pub const PERF_COUNTER_TEXT: u32 = PERF_SIZE_VARIABLE_LEN | PERF_TYPE_TEXT | PERF_TEXT_UNICODE
    | PERF_DISPLAY_NO_SUFFIX;
/// A 32-bit number shown in hexadecimal.
pub const PERF_COUNTER_RAWCOUNT_HEX: u32 = PERF_SIZE_DWORD | PERF_TYPE_NUMBER | PERF_NUMBER_HEX
    | PERF_DISPLAY_NO_SUFFIX;
/// A 64-bit number shown in hexadecimal.
pub const PERF_COUNTER_LARGE_RAWCOUNT_HEX: u32 = PERF_SIZE_LARGE | PERF_TYPE_NUMBER
    | PERF_NUMBER_HEX | PERF_DISPLAY_NO_SUFFIX;
/// A 32-bit count per second.
pub const PERF_COUNTER_COUNTER: u32 = PERF_SIZE_DWORD | PERF_TYPE_COUNTER | PERF_COUNTER_RATE
    | PERF_TIMER_TICK | PERF_DELTA_COUNTER | PERF_DISPLAY_PER_SEC;
/// A 64-bit busy time, in percent.
pub const PERF_COUNTER_TIMER: u32 = PERF_SIZE_LARGE | PERF_TYPE_COUNTER | PERF_COUNTER_RATE
    | PERF_TIMER_TICK | PERF_DELTA_COUNTER | PERF_DISPLAY_PERCENT;
/// A 32-bit queue length over time.
pub const PERF_COUNTER_QUEUELEN_TYPE: u32 = PERF_SIZE_DWORD | PERF_TYPE_COUNTER
    | PERF_COUNTER_QUEUELEN | PERF_TIMER_TICK | PERF_DELTA_COUNTER | PERF_DISPLAY_NO_SUFFIX;
/// A 64-bit queue length over time.
pub const PERF_COUNTER_LARGE_QUEUELEN_TYPE: u32 = PERF_SIZE_LARGE | PERF_TYPE_COUNTER
    | PERF_COUNTER_QUEUELEN | PERF_TIMER_TICK | PERF_DELTA_COUNTER | PERF_DISPLAY_NO_SUFFIX;
/// A 64-bit queue length over time in 100 ns units.
pub const PERF_COUNTER_100NS_QUEUELEN_TYPE: u32 = PERF_SIZE_LARGE | PERF_TYPE_COUNTER
    | PERF_COUNTER_QUEUELEN | PERF_TIMER_100NS | PERF_DELTA_COUNTER | PERF_DISPLAY_NO_SUFFIX;
/// A 64-bit queue length over the object's time.
pub const PERF_COUNTER_OBJ_TIME_QUEUELEN_TYPE: u32 = PERF_SIZE_LARGE | PERF_TYPE_COUNTER
    | PERF_COUNTER_QUEUELEN | PERF_OBJECT_TIMER | PERF_DELTA_COUNTER | PERF_DISPLAY_NO_SUFFIX;
/// A 64-bit count per second.
pub const PERF_COUNTER_BULK_COUNT: u32 = PERF_SIZE_LARGE | PERF_TYPE_COUNTER | PERF_COUNTER_RATE
    | PERF_TIMER_TICK | PERF_DELTA_COUNTER | PERF_DISPLAY_PER_SEC;
/// A 32-bit sampled fraction, in percent.
pub const PERF_SAMPLE_FRACTION: u32 = PERF_SIZE_DWORD | PERF_TYPE_COUNTER | PERF_COUNTER_FRACTION
    | PERF_DELTA_COUNTER | PERF_DELTA_BASE | PERF_DISPLAY_PERCENT;
/// A 32-bit sampled count.
pub const PERF_SAMPLE_COUNTER: u32 = PERF_SIZE_DWORD | PERF_TYPE_COUNTER | PERF_COUNTER_RATE
    | PERF_TIMER_TICK | PERF_DELTA_COUNTER | PERF_DISPLAY_NO_SUFFIX;
/// A counter without data.
pub const PERF_COUNTER_NODATA: u32 = PERF_SIZE_ZERO | PERF_DISPLAY_NOSHOW;
/// A 64-bit idle time, in percent.
pub const PERF_COUNTER_TIMER_INV: u32 = PERF_SIZE_LARGE | PERF_TYPE_COUNTER | PERF_COUNTER_RATE
    | PERF_TIMER_TICK | PERF_DELTA_COUNTER | PERF_INVERSE_COUNTER | PERF_DISPLAY_PERCENT;
/// The base of a sampled fraction.
pub const PERF_SAMPLE_BASE: u32 = PERF_SIZE_DWORD | PERF_TYPE_COUNTER | PERF_COUNTER_BASE
    | PERF_DISPLAY_NOSHOW | 0x0000_0001;
/// An average time, in seconds.
pub const PERF_AVERAGE_TIMER: u32 = PERF_SIZE_DWORD | PERF_TYPE_COUNTER | PERF_COUNTER_FRACTION
    | PERF_DISPLAY_SECONDS;
/// The base of an average.
pub const PERF_AVERAGE_BASE: u32 = PERF_SIZE_DWORD | PERF_TYPE_COUNTER | PERF_COUNTER_BASE
    | PERF_DISPLAY_NOSHOW | 0x0000_0002;
/// An average of counts, not shown.
pub const PERF_AVERAGE_BULK: u32 = PERF_SIZE_LARGE | PERF_TYPE_COUNTER | PERF_COUNTER_FRACTION
    | PERF_DISPLAY_NOSHOW;
/// A 64-bit busy time over the object's time, in percent.
pub const PERF_OBJ_TIME_TIMER: u32 = PERF_SIZE_LARGE | PERF_TYPE_COUNTER | PERF_COUNTER_RATE
    | PERF_OBJECT_TIMER | PERF_DELTA_COUNTER | PERF_DISPLAY_PERCENT;
/// A 64-bit busy time in 100 ns units, in percent.
pub const PERF_100NSEC_TIMER: u32 = PERF_SIZE_LARGE | PERF_TYPE_COUNTER | PERF_COUNTER_RATE
    | PERF_TIMER_100NS | PERF_DELTA_COUNTER | PERF_DISPLAY_PERCENT;
/// A 64-bit idle time in 100 ns units, in percent.
pub const PERF_100NSEC_TIMER_INV: u32 = PERF_SIZE_LARGE | PERF_TYPE_COUNTER | PERF_COUNTER_RATE
    | PERF_TIMER_100NS | PERF_DELTA_COUNTER | PERF_INVERSE_COUNTER | PERF_DISPLAY_PERCENT;
/// A 64-bit busy time of several items, in percent.
pub const PERF_COUNTER_MULTI_TIMER: u32 = PERF_SIZE_LARGE | PERF_TYPE_COUNTER | PERF_COUNTER_RATE
    | PERF_DELTA_COUNTER | PERF_TIMER_TICK | PERF_MULTI_COUNTER | PERF_DISPLAY_PERCENT;
/// A 64-bit idle time of several items, in percent.
pub const PERF_COUNTER_MULTI_TIMER_INV: u32 = PERF_SIZE_LARGE | PERF_TYPE_COUNTER
    | PERF_COUNTER_RATE | PERF_DELTA_COUNTER | PERF_MULTI_COUNTER | PERF_TIMER_TICK
    | PERF_INVERSE_COUNTER | PERF_DISPLAY_PERCENT;
/// The count of items of a multi-item timer.
pub const PERF_COUNTER_MULTI_BASE: u32 = PERF_SIZE_LARGE | PERF_TYPE_COUNTER | PERF_COUNTER_BASE
    | PERF_MULTI_COUNTER | PERF_DISPLAY_NOSHOW;
/// A 64-bit busy time of several items in 100 ns units, in percent.
pub const PERF_100NSEC_MULTI_TIMER: u32 = PERF_SIZE_LARGE | PERF_TYPE_COUNTER | PERF_DELTA_COUNTER
    | PERF_COUNTER_RATE | PERF_TIMER_100NS | PERF_MULTI_COUNTER | PERF_DISPLAY_PERCENT;
/// A 64-bit idle time of several items in 100 ns units, in percent.
pub const PERF_100NSEC_MULTI_TIMER_INV: u32 = PERF_SIZE_LARGE | PERF_TYPE_COUNTER
    | PERF_DELTA_COUNTER | PERF_COUNTER_RATE | PERF_TIMER_100NS | PERF_MULTI_COUNTER
    | PERF_INVERSE_COUNTER | PERF_DISPLAY_PERCENT;
/// A 32-bit fraction of its base, in percent.
pub const PERF_RAW_FRACTION: u32 = PERF_SIZE_DWORD | PERF_TYPE_COUNTER | PERF_COUNTER_FRACTION
    | PERF_DISPLAY_PERCENT;
/// A 64-bit fraction of its base, in percent.
pub const PERF_LARGE_RAW_FRACTION: u32 = PERF_SIZE_LARGE | PERF_TYPE_COUNTER
    | PERF_COUNTER_FRACTION | PERF_DISPLAY_PERCENT;
/// The 32-bit base of a raw fraction.
pub const PERF_RAW_BASE: u32 = PERF_SIZE_DWORD | PERF_TYPE_COUNTER | PERF_COUNTER_BASE
    | PERF_DISPLAY_NOSHOW | 0x0000_0003;
/// The 64-bit base of a raw fraction.
pub const PERF_LARGE_RAW_BASE: u32 = PERF_SIZE_LARGE | PERF_TYPE_COUNTER | PERF_COUNTER_BASE
    | PERF_DISPLAY_NOSHOW;
/// A time elapsed since a start, in seconds.
pub const PERF_ELAPSED_TIME: u32 = PERF_SIZE_LARGE | PERF_TYPE_COUNTER | PERF_COUNTER_ELAPSED
    | PERF_OBJECT_TIMER | PERF_DISPLAY_SECONDS;
/// A histogram, not supported.
pub const PERF_COUNTER_HISTOGRAM_TYPE: u32 = 0x8000_0000;
/// A 32-bit difference between two samples.
pub const PERF_COUNTER_DELTA: u32 = PERF_SIZE_DWORD | PERF_TYPE_COUNTER | PERF_COUNTER_VALUE
    | PERF_DELTA_COUNTER | PERF_DISPLAY_NO_SUFFIX;
/// A 64-bit difference between two samples.
pub const PERF_COUNTER_LARGE_DELTA: u32 = PERF_SIZE_LARGE | PERF_TYPE_COUNTER | PERF_COUNTER_VALUE
    | PERF_DELTA_COUNTER | PERF_DISPLAY_NO_SUFFIX;
/// A 64-bit busy time of the system timer, against its base.
pub const PERF_PRECISION_SYSTEM_TIMER: u32 = PERF_SIZE_LARGE | PERF_TYPE_COUNTER
    | PERF_COUNTER_PRECISION | PERF_TIMER_TICK | PERF_DELTA_COUNTER | PERF_DISPLAY_PERCENT;
/// A 64-bit busy time in 100 ns units, against its base.
pub const PERF_PRECISION_100NS_TIMER: u32 = PERF_SIZE_LARGE | PERF_TYPE_COUNTER
    | PERF_COUNTER_PRECISION | PERF_TIMER_100NS | PERF_DELTA_COUNTER | PERF_DISPLAY_PERCENT;
/// A 64-bit busy time of the object's timer, against its base.
pub const PERF_PRECISION_OBJECT_TIMER: u32 = PERF_SIZE_LARGE | PERF_TYPE_COUNTER
    | PERF_COUNTER_PRECISION | PERF_OBJECT_TIMER | PERF_DELTA_COUNTER | PERF_DISPLAY_PERCENT;

pub const MASK_RESERVED: u32 = 0b_00000000_00000000_11110000_11111111;
pub const MASK_SIZE: u32 = 0b_00000000_00000000_00000011_00000000;
pub const MASK_COUNTER_TYPE: u32 = 0b_00000000_00000000_00001100_00000000;
pub const MASK_COUNTER_SUB_TYPE: u32 = 0b_00000000_00001111_00000000_00000000;
pub const MASK_TIME_BASE: u32 = 0b_00000000_00110000_00000000_00000000;
pub const MASK_CALC_MODIFIER: u32 = 0b_00001111_11000000_00000000_00000000;
pub const MASK_DISPLAY_FLAGS: u32 = 0b_11110000_00000000_00000000_00000000;

/// The flags of `CalculationModifiers` that have a meaning.
pub const KNOWN_CALC_MODIFIERS: u32 = 0x03C0_0000;

/// Container for bit-masks of `CounterTypeDefinition` components.
#[derive(Clone, Copy, Debug, PartialEq, Eq, Structural)]
pub enum CounterTypeMask {
    Reserved,
    Size,
    CounterType,
    CounterSubType,
    TimeBase,
    CalcModifier,
    DisplayFlags,
}

impl CounterTypeMask {
    pub open spec fn spec_raw(self) -> u32 {
        match self {
            CounterTypeMask::Reserved => MASK_RESERVED,
            CounterTypeMask::Size => MASK_SIZE,
            CounterTypeMask::CounterType => MASK_COUNTER_TYPE,
            CounterTypeMask::CounterSubType => MASK_COUNTER_SUB_TYPE,
            CounterTypeMask::TimeBase => MASK_TIME_BASE,
            CounterTypeMask::CalcModifier => MASK_CALC_MODIFIER,
            CounterTypeMask::DisplayFlags => MASK_DISPLAY_FLAGS,
        }
    }

    pub fn into_raw(self) -> (r: u32)
        ensures
            r == self.spec_raw(),
    {
        match self {
            CounterTypeMask::Reserved => MASK_RESERVED,
            CounterTypeMask::Size => MASK_SIZE,
            CounterTypeMask::CounterType => MASK_COUNTER_TYPE,
            CounterTypeMask::CounterSubType => MASK_COUNTER_SUB_TYPE,
            CounterTypeMask::TimeBase => MASK_TIME_BASE,
            CounterTypeMask::CalcModifier => MASK_CALC_MODIFIER,
            CounterTypeMask::DisplayFlags => MASK_DISPLAY_FLAGS,
        }
    }
}

/// The counter's data size.
#[derive(Clone, Copy, Debug, PartialEq, Eq, Structural)]
pub enum Size {
    /// 32 bit field
    Dword,
    /// 64 bit field
    Large,
    /// for zero length fields
    Zero,
    /// length is in the CounterLength field of the counter definition
    Var,
}

/// The counter field usage.
#[derive(Clone, Copy, Debug, PartialEq, Eq, Structural)]
pub enum RawType {
    /// a number (not a counter)
    Number,
    /// an increasing numeric value
    Counter,
    /// a text field
    Text,
    /// displays a zero
    Zero,
}

/// Type and subtype together.
#[derive(Clone, Copy, Debug, PartialEq, Eq, Structural)]
pub enum CounterType {
    Number(Number),
    Counter(Counter),
    Text(Text),
    Zero,
}

/// How a number is displayed.
#[derive(Clone, Copy, Debug, PartialEq, Eq, Structural)]
pub enum Number {
    /// display as HEX value
    Hex,
    /// display as a decimal integer
    Decimal,
    /// display as a decimal/1000
    Dec1000,
}

/// The kind of a counter.
#[derive(Clone, Copy, Debug, PartialEq, Eq, Structural)]
pub enum Counter {
    /// display counter value
    Value,
    /// divide ctr / delta time
    Rate,
    /// divide ctr / base
    Fraction,
    /// base value used in fractions
    Base,
    /// subtract counter from current time
    Elapsed,
    /// use Queuelen processing function
    Queuelen,
    /// counter begins or ends a histogram
    Histogram,
    /// divide ctr / private clock
    Precision,
}

/// The kind of text data.
#[derive(Clone, Copy, Debug, PartialEq, Eq, Structural)]
pub enum Text {
    /// type of text in text field
    Unicode,
    /// ASCII using the CodePage field
    Ascii,
}

/// The time base.
#[derive(Clone, Copy, Debug, PartialEq, Eq, Structural)]
pub enum Timer {
    /// use system perf. freq for base
    TimerTick,
    /// use 100 NS timer time base units
    Timer100NS,
    /// use the object timer freq
    ObjectTimer,
}

/// The display suffix, if any.
#[derive(Clone, Copy, Debug, PartialEq, Eq, Structural)]
pub enum DisplayFlags {
    /// no suffix
    NoSuffix,
    /// "/sec"
    PerSec,
    /// "%"
    Percent,
    /// "secs"
    Seconds,
    /// value is not displayed
    NoShow,
}

/// The level of detail of a counter, for the user to choose what to show.
#[derive(Clone, Copy, Debug, PartialEq, Eq, Structural)]
pub enum DetailLevel {
    /// The uninformed can understand it
    Novice,
    /// For the advanced user
    Advanced,
    /// For the expert user
    Expert,
    /// For the system designer
    Wizard,
}

/// Flags of the calculations performed on a counter.
#[derive(Clone, Copy, Debug, PartialEq, Eq, Structural)]
pub struct CalculationModifiers {
    bits: u32,
}

pub open spec fn size_raw(s: Size) -> u32 {
    match s {
        Size::Dword => PERF_SIZE_DWORD,
        Size::Large => PERF_SIZE_LARGE,
        Size::Zero => PERF_SIZE_ZERO,
        Size::Var => PERF_SIZE_VARIABLE_LEN,
    }
}

pub open spec fn size_from_raw(value: u32) -> Size {
    let v = value & MASK_SIZE;
    if v == PERF_SIZE_DWORD {
        Size::Dword
    } else if v == PERF_SIZE_LARGE {
        Size::Large
    } else if v == PERF_SIZE_ZERO {
        Size::Zero
    } else {
        Size::Var
    }
}

pub open spec fn raw_type_raw(t: RawType) -> u32 {
    match t {
        RawType::Number => PERF_TYPE_NUMBER,
        RawType::Counter => PERF_TYPE_COUNTER,
        RawType::Text => PERF_TYPE_TEXT,
        RawType::Zero => PERF_TYPE_ZERO,
    }
}

pub open spec fn raw_type_from_raw(value: u32) -> RawType {
    let v = value & MASK_COUNTER_TYPE;
    if v == PERF_TYPE_NUMBER {
        RawType::Number
    } else if v == PERF_TYPE_COUNTER {
        RawType::Counter
    } else if v == PERF_TYPE_TEXT {
        RawType::Text
    } else {
        RawType::Zero
    }
}

pub open spec fn raw_type_of(t: CounterType) -> RawType {
    match t {
        CounterType::Counter(..) => RawType::Counter,
        CounterType::Number(..) => RawType::Number,
        CounterType::Text(..) => RawType::Text,
        CounterType::Zero => RawType::Zero,
    }
}

pub open spec fn number_raw(n: Number) -> u32 {
    match n {
        Number::Hex => PERF_NUMBER_HEX,
        Number::Decimal => PERF_NUMBER_DECIMAL,
        Number::Dec1000 => PERF_NUMBER_DEC_1000,
    }
}

pub open spec fn number_from_raw(value: u32) -> Option<Number> {
    let v = value & MASK_COUNTER_SUB_TYPE;
    if v == PERF_NUMBER_HEX {
        Some(Number::Hex)
    } else if v == PERF_NUMBER_DECIMAL {
        Some(Number::Decimal)
    } else if v == PERF_NUMBER_DEC_1000 {
        Some(Number::Dec1000)
    } else {
        None
    }
}

pub open spec fn counter_raw(c: Counter) -> u32 {
    match c {
        Counter::Value => PERF_COUNTER_VALUE,
        Counter::Rate => PERF_COUNTER_RATE,
        Counter::Fraction => PERF_COUNTER_FRACTION,
        Counter::Base => PERF_COUNTER_BASE,
        Counter::Elapsed => PERF_COUNTER_ELAPSED,
        Counter::Queuelen => PERF_COUNTER_QUEUELEN,
        Counter::Histogram => PERF_COUNTER_HISTOGRAM,
        Counter::Precision => PERF_COUNTER_PRECISION,
    }
}

pub open spec fn counter_from_raw(value: u32) -> Option<Counter> {
    let v = value & MASK_COUNTER_SUB_TYPE;
    if v == PERF_COUNTER_VALUE {
        Some(Counter::Value)
    } else if v == PERF_COUNTER_RATE {
        Some(Counter::Rate)
    } else if v == PERF_COUNTER_FRACTION {
        Some(Counter::Fraction)
    } else if v == PERF_COUNTER_BASE {
        Some(Counter::Base)
    } else if v == PERF_COUNTER_ELAPSED {
        Some(Counter::Elapsed)
    } else if v == PERF_COUNTER_QUEUELEN {
        Some(Counter::Queuelen)
    } else if v == PERF_COUNTER_HISTOGRAM {
        Some(Counter::Histogram)
    } else if v == PERF_COUNTER_PRECISION {
        Some(Counter::Precision)
    } else {
        None
    }
}

pub open spec fn text_raw(t: Text) -> u32 {
    match t {
        Text::Unicode => PERF_TEXT_UNICODE,
        Text::Ascii => PERF_TEXT_ASCII,
    }
}

pub open spec fn text_from_raw(value: u32) -> Option<Text> {
    let v = value & MASK_COUNTER_SUB_TYPE;
    if v == PERF_TEXT_UNICODE {
        Some(Text::Unicode)
    } else if v == PERF_TEXT_ASCII {
        Some(Text::Ascii)
    } else {
        None
    }
}

pub open spec fn sub_type_raw(t: CounterType) -> u32 {
    match t {
        CounterType::Counter(it) => counter_raw(it),
        CounterType::Number(it) => number_raw(it),
        CounterType::Text(it) => text_raw(it),
        CounterType::Zero => 0,
    }
}

pub open spec fn counter_type_from_raw(value: u32) -> Option<CounterType> {
    match raw_type_from_raw(value) {
        RawType::Number => match number_from_raw(value) {
            Some(n) => Some(CounterType::Number(n)),
            None => None,
        },
        RawType::Counter => match counter_from_raw(value) {
            Some(c) => Some(CounterType::Counter(c)),
            None => None,
        },
        RawType::Text => match text_from_raw(value) {
            Some(t) => Some(CounterType::Text(t)),
            None => None,
        },
        RawType::Zero => Some(CounterType::Zero),
    }
}

pub open spec fn timer_raw(t: Timer) -> u32 {
    match t {
        Timer::TimerTick => PERF_TIMER_TICK,
        Timer::Timer100NS => PERF_TIMER_100NS,
        Timer::ObjectTimer => PERF_OBJECT_TIMER,
    }
}

pub open spec fn timer_from_raw(value: u32) -> Option<Timer> {
    let v = value & MASK_TIME_BASE;
    if v == PERF_TIMER_TICK {
        Some(Timer::TimerTick)
    } else if v == PERF_TIMER_100NS {
        Some(Timer::Timer100NS)
    } else if v == PERF_OBJECT_TIMER {
        Some(Timer::ObjectTimer)
    } else {
        None
    }
}

/// The modifier bits of a raw value, if they are all known.
pub open spec fn modifiers_from_raw(value: u32) -> Option<u32> {
    let v = value & MASK_CALC_MODIFIER;
    if v & !KNOWN_CALC_MODIFIERS == 0 {
        Some(v)
    } else {
        None
    }
}

pub open spec fn display_raw(d: DisplayFlags) -> u32 {
    match d {
        DisplayFlags::NoSuffix => PERF_DISPLAY_NO_SUFFIX,
        DisplayFlags::PerSec => PERF_DISPLAY_PER_SEC,
        DisplayFlags::Percent => PERF_DISPLAY_PERCENT,
        DisplayFlags::Seconds => PERF_DISPLAY_SECONDS,
        DisplayFlags::NoShow => PERF_DISPLAY_NOSHOW,
    }
}

pub open spec fn display_from_raw(value: u32) -> Option<DisplayFlags> {
    let v = value & MASK_DISPLAY_FLAGS;
    if v == PERF_DISPLAY_NO_SUFFIX {
        Some(DisplayFlags::NoSuffix)
    } else if v == PERF_DISPLAY_PER_SEC {
        Some(DisplayFlags::PerSec)
    } else if v == PERF_DISPLAY_PERCENT {
        Some(DisplayFlags::Percent)
    } else if v == PERF_DISPLAY_SECONDS {
        Some(DisplayFlags::Seconds)
    } else if v == PERF_DISPLAY_NOSHOW {
        Some(DisplayFlags::NoShow)
    } else {
        None
    }
}

pub open spec fn detail_raw(d: DetailLevel) -> u32 {
    match d {
        DetailLevel::Novice => PERF_DETAIL_NOVICE,
        DetailLevel::Advanced => PERF_DETAIL_ADVANCED,
        DetailLevel::Expert => PERF_DETAIL_EXPERT,
        DetailLevel::Wizard => PERF_DETAIL_WIZARD,
    }
}

/// The raw value of a counter type made of its components.
pub open spec fn definition_raw(
    size: Size,
    counter_type: CounterType,
    timer: Timer,
    modifiers: CalculationModifiers,
    display: DisplayFlags,
) -> u32 {
    size_raw(size) | raw_type_raw(raw_type_of(counter_type)) | sub_type_raw(counter_type)
        | timer_raw(timer) | modifiers.spec_bits() | display_raw(display)
}

/// The raw value of a valid counter type rebuilt from its components: its reserved bits,
/// and the subtype bits of the zero type, are dropped.
pub open spec fn normalized_raw(value: u32) -> u32 {
    let ct = counter_type_from_raw(value)->0;
    size_raw(size_from_raw(value)) | raw_type_raw(raw_type_of(ct)) | sub_type_raw(ct) | timer_raw(
        timer_from_raw(value)->0,
    ) | modifiers_from_raw(value)->0 | display_raw(display_from_raw(value)->0)
}

/// Every component of the raw value has a meaning.
pub open spec fn definition_valid(value: u32) -> bool {
    &&& counter_type_from_raw(value) is Some
    &&& timer_from_raw(value) is Some
    &&& modifiers_from_raw(value) is Some
    &&& display_from_raw(value) is Some
}

/// The part of a raw value that the components describe: everything but the reserved bits.
pub open spec fn meaningful_bits(value: u32) -> u32 {
    value & !MASK_RESERVED
}

/// A safe, high-level wrapper for the `PERF_COUNTER_DEFINITION.CounterType` value.
#[derive(Clone, Copy, Debug)]
pub struct CounterTypeDefinition(u32);

impl Size {
    pub fn from_raw(value: u32) -> (r: Self)
        ensures
            r == size_from_raw(value),
    {
        let v = value & MASK_SIZE;
        if v == PERF_SIZE_DWORD {
            Size::Dword
        } else if v == PERF_SIZE_LARGE {
            Size::Large
        } else if v == PERF_SIZE_ZERO {
            Size::Zero
        } else {
            Size::Var
        }
    }

    pub fn into_raw(self) -> (r: u32)
        ensures
            r == size_raw(self),
    {
        match self {
            Size::Dword => PERF_SIZE_DWORD,
            Size::Large => PERF_SIZE_LARGE,
            Size::Zero => PERF_SIZE_ZERO,
            Size::Var => PERF_SIZE_VARIABLE_LEN,
        }
    }

    /// The number of bytes of the data, if fixed.
    pub fn size_of(self) -> (r: Option<usize>)
        ensures
            r == match self {
                Size::Dword => Some(4usize),
                Size::Large => Some(8usize),
                Size::Zero => Some(0usize),
                Size::Var => None,
            },
    {
        match self {
            Size::Dword => Some(4),
            Size::Large => Some(4 * 2),
            Size::Zero => Some(0),
            Size::Var => None,
        }
    }
}

impl RawType {
    pub fn from_raw(value: u32) -> (r: Self)
        ensures
            r == raw_type_from_raw(value),
    {
        let v = value & MASK_COUNTER_TYPE;
        if v == PERF_TYPE_NUMBER {
            RawType::Number
        } else if v == PERF_TYPE_COUNTER {
            RawType::Counter
        } else if v == PERF_TYPE_TEXT {
            RawType::Text
        } else {
            RawType::Zero
        }
    }

    pub fn into_raw(self) -> (r: u32)
        ensures
            r == raw_type_raw(self),
    {
        match self {
            RawType::Number => PERF_TYPE_NUMBER,
            RawType::Counter => PERF_TYPE_COUNTER,
            RawType::Text => PERF_TYPE_TEXT,
            RawType::Zero => PERF_TYPE_ZERO,
        }
    }
}

impl From<CounterType> for RawType {
    /// The type part of a type and subtype.
    fn from(value: CounterType) -> (r: Self) {
        match value {
            CounterType::Counter(..) => RawType::Counter,
            CounterType::Number(..) => RawType::Number,
            CounterType::Text(..) => RawType::Text,
            CounterType::Zero => RawType::Zero,
        }
    }
}

impl vstd::std_specs::convert::FromSpecImpl<CounterType> for RawType {
    open spec fn obeys_from_spec() -> bool {
        true
    }

    open spec fn from_spec(v: CounterType) -> RawType {
        raw_type_of(v)
    }
}

/// The counter subtype bits of a raw value.
pub fn sub_type(value: u32) -> (r: u32)
    ensures
        r == value & MASK_COUNTER_SUB_TYPE,
{
    value & MASK_COUNTER_SUB_TYPE
}

impl CounterType {
    pub fn from_raw(value: u32) -> (r: Option<Self>)
        ensures
            r == counter_type_from_raw(value),
    {
        match RawType::from_raw(value) {
            RawType::Number => match Number::from_raw(value) {
                Some(n) => Some(CounterType::Number(n)),
                None => None,
            },
            RawType::Counter => match Counter::from_raw(value) {
                Some(c) => Some(CounterType::Counter(c)),
                None => None,
            },
            RawType::Text => match Text::from_raw(value) {
                Some(t) => Some(CounterType::Text(t)),
                None => None,
            },
            RawType::Zero => Some(CounterType::Zero),
        }
    }

    /// The subtype bits. Nothing is documented of the subtype of the zero type; it is
    /// taken to be zero.
    pub fn sub_type(&self) -> (r: u32)
        ensures
            r == sub_type_raw(*self),
    {
        match *self {
            CounterType::Counter(it) => it.into_raw(),
            CounterType::Number(it) => it.into_raw(),
            CounterType::Text(it) => it.into_raw(),
            CounterType::Zero => 0,
        }
    }
}

impl Number {
    pub fn from_raw(value: u32) -> (r: Option<Self>)
        ensures
            r == number_from_raw(value),
    {
        let v = sub_type(value);
        if v == PERF_NUMBER_HEX {
            Some(Number::Hex)
        } else if v == PERF_NUMBER_DECIMAL {
            Some(Number::Decimal)
        } else if v == PERF_NUMBER_DEC_1000 {
            Some(Number::Dec1000)
        } else {
            None
        }
    }

    pub fn into_raw(self) -> (r: u32)
        ensures
            r == number_raw(self),
    {
        match self {
            Number::Hex => PERF_NUMBER_HEX,
            Number::Decimal => PERF_NUMBER_DECIMAL,
            Number::Dec1000 => PERF_NUMBER_DEC_1000,
        }
    }
}

impl Counter {
    pub fn from_raw(value: u32) -> (r: Option<Self>)
        ensures
            r == counter_from_raw(value),
    {
        let v = sub_type(value);
        if v == PERF_COUNTER_VALUE {
            Some(Counter::Value)
        } else if v == PERF_COUNTER_RATE {
            Some(Counter::Rate)
        } else if v == PERF_COUNTER_FRACTION {
            Some(Counter::Fraction)
        } else if v == PERF_COUNTER_BASE {
            Some(Counter::Base)
        } else if v == PERF_COUNTER_ELAPSED {
            Some(Counter::Elapsed)
        } else if v == PERF_COUNTER_QUEUELEN {
            Some(Counter::Queuelen)
        } else if v == PERF_COUNTER_HISTOGRAM {
            Some(Counter::Histogram)
        } else if v == PERF_COUNTER_PRECISION {
            Some(Counter::Precision)
        } else {
            None
        }
    }

    pub fn into_raw(self) -> (r: u32)
        ensures
            r == counter_raw(self),
    {
        match self {
            Counter::Value => PERF_COUNTER_VALUE,
            Counter::Rate => PERF_COUNTER_RATE,
            Counter::Fraction => PERF_COUNTER_FRACTION,
            Counter::Base => PERF_COUNTER_BASE,
            Counter::Elapsed => PERF_COUNTER_ELAPSED,
            Counter::Queuelen => PERF_COUNTER_QUEUELEN,
            Counter::Histogram => PERF_COUNTER_HISTOGRAM,
            Counter::Precision => PERF_COUNTER_PRECISION,
        }
    }
}

impl Text {
    pub fn from_raw(value: u32) -> (r: Option<Self>)
        ensures
            r == text_from_raw(value),
    {
        let v = sub_type(value);
        if v == PERF_TEXT_UNICODE {
            Some(Text::Unicode)
        } else if v == PERF_TEXT_ASCII {
            Some(Text::Ascii)
        } else {
            None
        }
    }

    pub fn into_raw(self) -> (r: u32)
        ensures
            r == text_raw(self),
    {
        match self {
            Text::Unicode => PERF_TEXT_UNICODE,
            Text::Ascii => PERF_TEXT_ASCII,
        }
    }
}

impl Timer {
    pub fn from_raw(value: u32) -> (r: Option<Self>)
        ensures
            r == timer_from_raw(value),
    {
        let v = value & MASK_TIME_BASE;
        if v == PERF_TIMER_TICK {
            Some(Timer::TimerTick)
        } else if v == PERF_TIMER_100NS {
            Some(Timer::Timer100NS)
        } else if v == PERF_OBJECT_TIMER {
            Some(Timer::ObjectTimer)
        } else {
            None
        }
    }

    pub fn into_raw(self) -> (r: u32)
        ensures
            r == timer_raw(self),
    {
        match self {
            Timer::TimerTick => PERF_TIMER_TICK,
            Timer::Timer100NS => PERF_TIMER_100NS,
            Timer::ObjectTimer => PERF_OBJECT_TIMER,
        }
    }
}

impl CalculationModifiers {
    /// The flags as bits.
    pub closed spec fn spec_bits(self) -> u32 {
        self.bits
    }

    /// Flags are their bits.
    pub proof fn lemma_bits_eq(a: Self, b: Self)
        ensures
            a.spec_bits() == b.spec_bits() ==> a == b,
    {
    }

    /// Only known flags.
    pub open spec fn wf(self) -> bool {
        self.spec_bits() & !KNOWN_CALC_MODIFIERS == 0
    }

    /// No flag.
    pub fn empty() -> (r: Self)
        ensures
            r.spec_bits() == 0,
    {
        CalculationModifiers { bits: 0 }
    }

    /// Compute difference first.
    pub fn delta() -> (r: Self)
        ensures
            r.spec_bits() == PERF_DELTA_COUNTER,
    {
        CalculationModifiers { bits: PERF_DELTA_COUNTER }
    }

    /// Compute base difference as well.
    pub fn delta_base() -> (r: Self)
        ensures
            r.spec_bits() == PERF_DELTA_BASE,
    {
        CalculationModifiers { bits: PERF_DELTA_BASE }
    }

    /// Show as 1.00 minus the value.
    pub fn inverse() -> (r: Self)
        ensures
            r.spec_bits() == PERF_INVERSE_COUNTER,
    {
        CalculationModifiers { bits: PERF_INVERSE_COUNTER }
    }

    /// Sum of multiple instances.
    pub fn multi() -> (r: Self)
        ensures
            r.spec_bits() == PERF_MULTI_COUNTER,
    {
        CalculationModifiers { bits: PERF_MULTI_COUNTER }
    }

    /// Both sets of flags.
    pub fn union(self, other: Self) -> (r: Self)
        ensures
            r.spec_bits() == self.spec_bits() | other.spec_bits(),
    {
        CalculationModifiers { bits: self.bits | other.bits }
    }

    /// Whether all flags of `other` are set.
    pub fn contains(self, other: Self) -> (r: bool)
        ensures
            r == (self.spec_bits() & other.spec_bits() == other.spec_bits()),
    {
        self.bits & other.bits == other.bits
    }

    /// The flags of `bits`, if it has no unknown bit.
    pub fn from_bits(bits: u32) -> (r: Option<Self>)
        ensures
            r is Some <==> bits & !KNOWN_CALC_MODIFIERS == 0,
            r matches Some(m) ==> m.spec_bits() == bits,
    {
        if bits & !KNOWN_CALC_MODIFIERS == 0 {
            Some(CalculationModifiers { bits })
        } else {
            None
        }
    }

    /// The known flags of `bits`.
    pub fn from_bits_truncate(bits: u32) -> (r: Self)
        ensures
            r.spec_bits() == bits & KNOWN_CALC_MODIFIERS,
    {
        CalculationModifiers { bits: bits & KNOWN_CALC_MODIFIERS }
    }

    pub fn bits(&self) -> (r: u32)
        ensures
            r == self.spec_bits(),
    {
        self.bits
    }

    /// The flags of a raw counter type, if it has no unknown modifier bit.
    pub fn from_raw(value: u32) -> (r: Option<Self>)
        ensures
            r is Some <==> modifiers_from_raw(value) is Some,
            r matches Some(m) ==> modifiers_from_raw(value) == Some(m.spec_bits()),
    {
        let v = value & MASK_CALC_MODIFIER;
        Self::from_bits(v)
    }

    /// The known flags of a raw counter type.
    pub fn from_raw_truncate(value: u32) -> (r: Self)
        ensures
            r.spec_bits() == value & MASK_CALC_MODIFIER & KNOWN_CALC_MODIFIERS,
    {
        let v = value & MASK_CALC_MODIFIER;
        Self::from_bits_truncate(v)
    }

    pub fn into_raw(self) -> (r: u32)
        ensures
            r == self.spec_bits(),
    {
        self.bits()
    }
}

impl DisplayFlags {
    pub fn from_raw(value: u32) -> (r: Option<Self>)
        ensures
            r == display_from_raw(value),
    {
        let v = value & MASK_DISPLAY_FLAGS;
        if v == PERF_DISPLAY_NO_SUFFIX {
            Some(DisplayFlags::NoSuffix)
        } else if v == PERF_DISPLAY_PER_SEC {
            Some(DisplayFlags::PerSec)
        } else if v == PERF_DISPLAY_PERCENT {
            Some(DisplayFlags::Percent)
        } else if v == PERF_DISPLAY_SECONDS {
            Some(DisplayFlags::Seconds)
        } else if v == PERF_DISPLAY_NOSHOW {
            Some(DisplayFlags::NoShow)
        } else {
            None
        }
    }

    pub fn into_raw(self) -> (r: u32)
        ensures
            r == display_raw(self),
    {
        match self {
            DisplayFlags::NoSuffix => PERF_DISPLAY_NO_SUFFIX,
            DisplayFlags::PerSec => PERF_DISPLAY_PER_SEC,
            DisplayFlags::Percent => PERF_DISPLAY_PERCENT,
            DisplayFlags::Seconds => PERF_DISPLAY_SECONDS,
            DisplayFlags::NoShow => PERF_DISPLAY_NOSHOW,
        }
    }
}

impl DetailLevel {
    pub fn into_raw(self) -> (r: u32)
        ensures
            r == detail_raw(self),
    {
        match self {
            DetailLevel::Novice => PERF_DETAIL_NOVICE,
            DetailLevel::Advanced => PERF_DETAIL_ADVANCED,
            DetailLevel::Expert => PERF_DETAIL_EXPERT,
            DetailLevel::Wizard => PERF_DETAIL_WIZARD,
        }
    }
}

impl Default for DetailLevel {
    fn default() -> (r: Self)
        ensures
            r == DetailLevel::Novice,
    {
        DetailLevel::Novice
    }
}

/// The fields of a raw counter type lie each in its own mask, so that masking the
/// union of the fields gives each field back.
proof fn lemma_fields(a: u32, b: u32, c: u32, d: u32, e: u32, f: u32)
    by (bit_vector)
    requires
        a & !0x300u32 == 0,
        b & !0xC00u32 == 0,
        c & !0xF0000u32 == 0,
        d & !0x300000u32 == 0,
        e & !0x3C00000u32 == 0,
        f & !0xF0000000u32 == 0,
    ensures
        (a | b | c | d | e | f) & 0x300u32 == a,
        (a | b | c | d | e | f) & 0xC00u32 == b,
        (a | b | c | d | e | f) & 0xF0000u32 == c,
        (a | b | c | d | e | f) & 0x300000u32 == d,
        (a | b | c | d | e | f) & 0xFC00000u32 == e,
        (a | b | c | d | e | f) & 0xF0000000u32 == f,
        ((a | b | c | d | e | f) & 0xFC00000u32) & !0x3C00000u32 == 0,
        (a | b | c | d | e | f) & !0xF0FFu32 == a | b | c | d | e | f,
{
}

proof fn lemma_in_mask(x: u32)
    by (bit_vector)
    ensures
        (x == 0 || x == 0x100 || x == 0x200 || x == 0x300) ==> x & !0x300u32 == 0,
        (x == 0 || x == 0x400 || x == 0x800 || x == 0xC00) ==> x & !0xC00u32 == 0,
        (x == 0 || x == 0x10000 || x == 0x20000 || x == 0x30000 || x == 0x40000 || x == 0x50000
            || x == 0x60000 || x == 0x70000) ==> x & !0xF0000u32 == 0,
        (x == 0 || x == 0x100000 || x == 0x200000) ==> x & !0x300000u32 == 0,
        (x == 0 || x == 0x10000000 || x == 0x20000000 || x == 0x30000000 || x == 0x40000000)
            ==> x & !0xF0000000u32 == 0,
{
}

/// Law: the components of a counter type made of components are those components, and
/// every component of it is valid.
pub proof fn lemma_definition_roundtrip(
    size: Size,
    counter_type: CounterType,
    timer: Timer,
    modifiers: CalculationModifiers,
    display: DisplayFlags,
)
    requires
        modifiers.wf(),
    ensures
        ({
            let v = definition_raw(size, counter_type, timer, modifiers, display);
            &&& size_from_raw(v) == size
            &&& counter_type_from_raw(v) == Some(counter_type)
            &&& timer_from_raw(v) == Some(timer)
            &&& modifiers_from_raw(v) == Some(modifiers.spec_bits())
            &&& display_from_raw(v) == Some(display)
            &&& definition_valid(v)
            &&& meaningful_bits(v) == v
        }),
{
    let a = size_raw(size);
    let b = raw_type_raw(raw_type_of(counter_type));
    let c = sub_type_raw(counter_type);
    let d = timer_raw(timer);
    let e = modifiers.spec_bits();
    let f = display_raw(display);
    lemma_in_mask(a);
    lemma_in_mask(b);
    lemma_in_mask(c);
    lemma_in_mask(d);
    lemma_in_mask(f);
    lemma_fields(a, b, c, d, e, f);
}

/// Law: `from_raw` after `into_raw` gives the same counter type back: the raw value that
/// `from_raw` keeps of any value it accepts is accepted again and kept as it is.
pub proof fn lemma_from_raw_stable(value: u32)
    requires
        definition_valid(value),
    ensures
        definition_valid(normalized_raw(value)),
        normalized_raw(normalized_raw(value)) == normalized_raw(value),
{
    let modifiers = CalculationModifiers { bits: modifiers_from_raw(value)->0 };
    lemma_definition_roundtrip(
        size_from_raw(value),
        counter_type_from_raw(value)->0,
        timer_from_raw(value)->0,
        modifiers,
        display_from_raw(value)->0,
    );
    assert(normalized_raw(value) == definition_raw(
        size_from_raw(value),
        counter_type_from_raw(value)->0,
        timer_from_raw(value)->0,
        modifiers,
        display_from_raw(value)->0,
    ));
}

impl CounterTypeDefinition {
    /// A raw value whose components all have a meaning.
    #[verifier::type_invariant]
    pub closed spec fn wf(self) -> bool {
        definition_valid(self.0)
    }

    /// The raw value.
    pub closed spec fn raw(self) -> u32 {
        self.0
    }

    pub fn new(
        size: Size,
        counter_type: CounterType,
        timer: Timer,
        calculation_modifiers: CalculationModifiers,
        display_flags: DisplayFlags,
    ) -> (r: Self)
        requires
            calculation_modifiers.wf(),
        ensures
            r.raw() == definition_raw(size, counter_type, timer, calculation_modifiers, display_flags),
    {
        proof {
            lemma_definition_roundtrip(size, counter_type, timer, calculation_modifiers, display_flags);
        }
        let inner = size.into_raw() | RawType::from(counter_type).into_raw()
            | counter_type.sub_type() | timer.into_raw() | calculation_modifiers.into_raw()
            | display_flags.into_raw();
        CounterTypeDefinition(inner)
    }

    /// The counter type of a raw value, if all of its components have a meaning. Its
    /// reserved bits are dropped, and so are the subtype bits of the zero type.
    pub fn from_raw(value: u32) -> (r: Option<Self>)
        ensures
            r is Some <==> definition_valid(value),
            r matches Some(d) ==> d.raw() == normalized_raw(value),
            r matches Some(d) ==> size_from_raw(d.raw()) == size_from_raw(value)
                && counter_type_from_raw(d.raw()) == counter_type_from_raw(value)
                && timer_from_raw(d.raw()) == timer_from_raw(value)
                && modifiers_from_raw(d.raw()) == modifiers_from_raw(value)
                && display_from_raw(d.raw()) == display_from_raw(value),
    {
        let size = Size::from_raw(value);
        let counter_type = match CounterType::from_raw(value) {
            Some(x) => x,
            None => return None,
        };
        let timer = match Timer::from_raw(value) {
            Some(x) => x,
            None => return None,
        };
        let modifiers = match CalculationModifiers::from_raw(value) {
            Some(x) => x,
            None => return None,
        };
        let display = match DisplayFlags::from_raw(value) {
            Some(x) => x,
            None => return None,
        };
        proof {
            lemma_definition_roundtrip(size, counter_type, timer, modifiers, display);
        }
        Some(Self::new(size, counter_type, timer, modifiers, display))
    }

    pub fn into_raw(self) -> (r: u32)
        ensures
            r == self.raw(),
    {
        self.0
    }

    pub fn size(&self) -> (r: Size)
        ensures
            r == size_from_raw(self.raw()),
    {
        Size::from_raw(self.0)
    }

    pub fn raw_type(&self) -> (r: RawType)
        ensures
            r == raw_type_from_raw(self.raw()),
    {
        RawType::from_raw(self.0)
    }

    pub fn sub_type(&self) -> (r: u32)
        ensures
            r == self.raw() & MASK_COUNTER_SUB_TYPE,
    {
        sub_type(self.0)
    }

    pub fn counter_type(&self) -> (r: CounterType)
        ensures
            counter_type_from_raw(self.raw()) == Some(r),
    {
        proof {
            use_type_invariant(self);
        }
        CounterType::from_raw(self.0).unwrap()
    }

    pub fn time_base(&self) -> (r: Timer)
        ensures
            timer_from_raw(self.raw()) == Some(r),
    {
        proof {
            use_type_invariant(self);
        }
        Timer::from_raw(self.0).unwrap()
    }

    pub fn calculation_modifiers(&self) -> (r: CalculationModifiers)
        ensures
            modifiers_from_raw(self.raw()) == Some(r.spec_bits()),
    {
        proof {
            use_type_invariant(self);
        }
        CalculationModifiers::from_raw(self.0).unwrap()
    }

    pub fn display_flags(self) -> (r: DisplayFlags)
        ensures
            display_from_raw(self.raw()) == Some(r),
    {
        proof {
            use_type_invariant(&self);
        }
        DisplayFlags::from_raw(self.0).unwrap()
    }
}

} // verus!
