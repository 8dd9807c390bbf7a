//! RTSM as a codec without pipelines: a special encoding for Morse which allows a low
//! sampling rate over a short-range integer-valued signal (such as a byte stream).
use vstd::prelude::*;

use std::ops::Range;

pub use crate::rtsm::SignalValue;
use crate::rtsm::{next_in_range, range_contains, range_has};

verus! {

pub type Signal = bool;

pub const ON: Signal = true;

pub const OFF: Signal = false;

/// # Ratijas Slow Mode Protocol
///
/// Transfers individual bits as integer signal values, where each new value differs
/// from the last one, so that a receiver that is not synchronized with the sender always
/// knows whether the value changed or it reads the old one.
pub struct RtsmProto<T> {
    on: Range<T>,
    off: Range<T>,
    on_current: T,
    off_current: T,
    current: Option<(Signal, T)>,
}

/// What `encode` gives for `s`: the value in use in the range of `s`, moved on to the
/// next one of the range when the last signal was `s` too.
pub open spec fn proto_encoded<T: SignalValue>(p: RtsmProto<T>, s: Signal) -> int {
    let range = if s { p.on_range() } else { p.off_range() };
    let v = if s { p.on_value() } else { p.off_value() };
    if p.signal_now() == Some(s) {
        next_in_range(v, range.start.int_value(), range.end.int_value(), T::min_value(), T::max_value())
    } else {
        v
    }
}

impl<T: SignalValue> RtsmProto<T> {
    pub closed spec fn on_range(&self) -> Range<T> {
        self.on
    }

    pub closed spec fn off_range(&self) -> Range<T> {
        self.off
    }

    /// The value in use in the on range.
    pub closed spec fn on_value(&self) -> int {
        self.on_current.int_value()
    }

    /// The value in use in the off range.
    pub closed spec fn off_value(&self) -> int {
        self.off_current.int_value()
    }

    /// The last signal, if any.
    pub closed spec fn signal_now(&self) -> Option<Signal> {
        match self.current {
            Some((s, _)) => Some(s),
            None => None,
        }
    }

    /// The value of the last signal, if any.
    pub closed spec fn value_now(&self) -> Option<int> {
        match self.current {
            Some((_, v)) => Some(v.int_value()),
            None => None,
        }
    }

    pub fn new(on: Range<T>, off: Range<T>) -> (r: Self)
        ensures
            r.on_range() == on,
            r.off_range() == off,
            r.on_value() == on.start.int_value(),
            r.off_value() == off.start.int_value(),
            r.signal_now() is None,
            r.value_now() is None,
    {
        RtsmProto { current: None, on_current: on.start, off_current: off.start, on, off }
    }

    /// The last signal, if any.
    pub fn signal(&self) -> (r: Option<bool>)
        ensures
            r == self.signal_now(),
    {
        match self.current {
            Some((s, _)) => Some(s),
            None => None,
        }
    }

    /// The value of the last signal, or the start of the off range before the first one.
    pub fn value(&self) -> (r: T)
        ensures
            r.int_value() == match self.value_now() {
                Some(v) => v,
                None => self.off_range().start.int_value(),
            },
    {
        match self.current {
            Some((_, v)) => v,
            None => self.off.start,
        }
    }

    /// Move the value in use in the range of `signal` on when the signal repeats, and
    /// return it. The last signal is left as it is.
    fn increment_range_if_needed(&mut self, signal: Signal) -> (r: T)
        ensures
            r.int_value() == proto_encoded(*old(self), signal),
            final(self).on_range() == old(self).on_range(),
            final(self).off_range() == old(self).off_range(),
            final(self).current == old(self).current,
            signal ==> final(self).on_value() == r.int_value() && final(self).off_value() == old(self).off_value(),
            !signal ==> final(self).off_value() == r.int_value() && final(self).on_value() == old(self).on_value(),
    {
        let current = self.current;
        if signal {
            if let Some((current_signal, _)) = current {
                if current_signal == signal {
                    self.on_current = self.on_current.wrapping_next(&self.on);
                }
            }
            self.on_current
        } else {
            if let Some((current_signal, _)) = current {
                if current_signal == signal {
                    self.off_current = self.off_current.wrapping_next(&self.off);
                }
            }
            self.off_current
        }
    }

    /// Encode one signal unit as a value.
    pub fn encode(&mut self, signal: Signal) -> (r: T)
        ensures
            r.int_value() == proto_encoded(*old(self), signal),
            final(self).on_range() == old(self).on_range(),
            final(self).off_range() == old(self).off_range(),
            final(self).signal_now() == Some(signal),
            final(self).value_now() == Some(r.int_value()),
            signal ==> final(self).on_value() == r.int_value() && final(self).off_value() == old(self).off_value(),
            !signal ==> final(self).off_value() == r.int_value() && final(self).on_value() == old(self).on_value(),
    {
        let value = self.increment_range_if_needed(signal);
        self.current = Some((signal, value));
        value
    }

    fn signal_for_value(&self, value: T) -> (r: Result<Signal, ()>)
        ensures
            range_has(self.on, value.int_value()) ==> r == Ok::<Signal, ()>(ON),
            !range_has(self.on, value.int_value()) && range_has(self.off, value.int_value()) ==> r
                == Ok::<Signal, ()>(OFF),
            !range_has(self.on, value.int_value()) && !range_has(self.off, value.int_value())
                ==> r is Err,
    {
        if range_contains(&self.on, &value) {
            Ok(ON)
        } else if range_contains(&self.off, &value) {
            Ok(OFF)
        } else {
            Err(())
        }
    }

    /// Decode one value: `None` when it repeats the last value, the signal of its range
    /// otherwise, and the value itself when it lies in neither range.
    pub fn decode(&mut self, value: T) -> (r: Result<Option<Signal>, T>)
        ensures
            final(self).on_range() == old(self).on_range(),
            final(self).off_range() == old(self).off_range(),
            final(self).on_value() == old(self).on_value(),
            final(self).off_value() == old(self).off_value(),
            old(self).value_now() == Some(value.int_value()) ==> r == Ok::<Option<Signal>, T>(None)
                && final(self).signal_now() == old(self).signal_now() && final(self).value_now()
                == old(self).value_now(),
            old(self).value_now() != Some(value.int_value()) && range_has(
                old(self).on_range(),
                value.int_value(),
            ) ==> r == Ok::<Option<Signal>, T>(Some(ON)) && final(self).signal_now() == Some(ON)
                && final(self).value_now() == Some(value.int_value()),
            old(self).value_now() != Some(value.int_value()) && !range_has(
                old(self).on_range(),
                value.int_value(),
            ) && range_has(old(self).off_range(), value.int_value()) ==> r == Ok::<
                Option<Signal>,
                T,
            >(Some(OFF)) && final(self).signal_now() == Some(OFF) && final(self).value_now()
                == Some(value.int_value()),
            old(self).value_now() != Some(value.int_value()) && !range_has(
                old(self).on_range(),
                value.int_value(),
            ) && !range_has(old(self).off_range(), value.int_value()) ==> r == Err::<
                Option<Signal>,
                T,
            >(value) && final(self).signal_now() is None && final(self).value_now() is None,
    {
        if let Some((_, current_value)) = self.current {
            if value.same_as(&current_value) {
                return Ok(None);
            }
        }
        match self.signal_for_value(value) {
            Ok(signal) => {
                self.current = Some((signal, value));
                Ok(Some(signal))
            },
            Err(_) => {
                self.current = None;
                Err(value)
            },
        }
    }
}

impl Default for RtsmProto<i32> {
    /// On from 60 to 89, off from 10 to 39.
    fn default() -> (r: Self)
        ensures
            r.on_range().start == 60i32 && r.on_range().end == 90i32,
            r.off_range().start == 10i32 && r.off_range().end == 40i32,
            r.signal_now() is None,
    {
        RtsmProto::new(60..90, 10..40)
    }
}

} // verus!
