//! RTSM (Ratijas Slow-Mode Protocol) transmitter and receiver: each signal unit
//! travels as an integer value of one of two ranges, and each new value differs from
//! the one before, so that a receiver that is not synchronized with the sender knows
//! whether it reads a new unit or the old one again.
use vstd::prelude::*;

use std::ops::Range;

use crate::rx::{Rx, recv_law};
use crate::signal_error::{ErrorView, SignalError, result_view};
use crate::tx::Tx;

verus! {

pub type Signal = bool;

pub const ON: Signal = true;

pub const OFF: Signal = false;

/// The value after `v` in the range `start..end`: one more, wrapping at the end of the
/// type, or the start of the range when that leaves the range.
pub open spec fn next_in_range(v: int, start: int, end: int, min: int, max: int) -> int {
    let n = if v == max { min } else { v + 1 };
    if start <= n && n < end { n } else { start }
}

/// Integers of a fixed-width type that carry the signal.
pub trait SignalValue: Sized + Copy {
    /// The value as an integer.
    spec fn int_value(&self) -> int;

    /// The least value of the type.
    spec fn min_value() -> int;

    /// The greatest value of the type.
    spec fn max_value() -> int;

    /// Values lie between the least and the greatest value, and a value is its integer.
    proof fn lemma_value(a: Self, b: Self)
        ensures
            Self::min_value() <= a.int_value() <= Self::max_value(),
            a.int_value() == b.int_value() ==> a == b,
    ;

    /// Just a regular one of whatever type it is.
    fn one() -> (r: Self)
        ensures
            r.int_value() == 1,
    ;

    /// `self + 1` wrapped around the bounds of the given range.
    fn wrapping_next(&self, range: &Range<Self>) -> (r: Self)
        ensures
            r.int_value() == next_in_range(
                self.int_value(),
                range.start.int_value(),
                range.end.int_value(),
                Self::min_value(),
                Self::max_value(),
            ),
    ;

    fn less_than(&self, other: &Self) -> (r: bool)
        ensures
            r == (self.int_value() < other.int_value()),
    ;

    fn same_as(&self, other: &Self) -> (r: bool)
        ensures
            r == (self.int_value() == other.int_value()),
    ;

    /// Whether `end - start` is more than one.
    fn span_exceeds_one(start: &Self, end: &Self) -> (r: bool)
        ensures
            r == (end.int_value() - start.int_value() > 1),
    ;

    fn to_i128(&self) -> (r: i128)
        ensures
            r == self.int_value(),
    ;
}

/// Whether `v` lies in `range`.
pub open spec fn range_has<T: SignalValue>(range: Range<T>, v: int) -> bool {
    range.start.int_value() <= v && v < range.end.int_value()
}

/// Whether `v` lies in `range`.
pub fn range_contains<T: SignalValue>(range: &Range<T>, v: &T) -> (r: bool)
    ensures
        r == range_has(*range, v.int_value()),
{
    !v.less_than(&range.start) && v.less_than(&range.end)
}

/// Two ranges are usable together: each is ordered and holds more than one value, and
/// they do not overlap.
pub open spec fn spec_ranges_are_valid<T: SignalValue>(r1: Range<T>, r2: Range<T>) -> bool {
    let (s1, e1, s2, e2) = (
        r1.start.int_value(),
        r1.end.int_value(),
        r2.start.int_value(),
        r2.end.int_value(),
    );
    &&& s1 < e1
    &&& s2 < e2
    &&& e1 - s1 > 1
    &&& e2 - s2 > 1
    &&& (e1 <= s2) != (e2 <= s1)
}

/// Law: two ranges are usable together exactly when each holds more than one value and no
/// value lies in both, whichever of them comes first.
pub proof fn lemma_ranges_valid_when_disjoint<T: SignalValue>(r1: Range<T>, r2: Range<T>)
    ensures
        spec_ranges_are_valid(r1, r2) == (range_has(r1, r1.start.int_value() + 1) && range_has(
            r2,
            r2.start.int_value() + 1,
        ) && forall|v: int| !(#[trigger] range_has(r1, v) && range_has(r2, v))),
        spec_ranges_are_valid(r1, r2) == spec_ranges_are_valid(r2, r1),
{
    let (s1, e1, s2, e2) = (
        r1.start.int_value(),
        r1.end.int_value(),
        r2.start.int_value(),
        r2.end.int_value(),
    );
    if range_has(r1, s1 + 1) && range_has(r2, s2 + 1) && forall|v: int| !(#[trigger] range_has(r1, v) && range_has(r2, v)) {
        if !(e1 <= s2) && !(e2 <= s1) {
            let v = if s1 <= s2 { s2 } else { s1 };
            assert(range_has(r1, v) && range_has(r2, v));
        }
    }
}

fn ranges_are_valid<T: SignalValue>(r1: &Range<T>, r2: &Range<T>) -> (r: bool)
    ensures
        r == spec_ranges_are_valid(*r1, *r2),
{
    r1.start.less_than(&r1.end) && r2.start.less_than(&r2.end) && T::span_exceeds_one(
        &r1.start,
        &r1.end,
    ) && T::span_exceeds_one(&r2.start, &r2.end) && ((!r2.start.less_than(&r1.end))
        != (!r1.start.less_than(&r2.end)))
}

/// The ranges of values for off and for on.
pub struct RtsmRanges<T> {
    off: Range<T>,
    on: Range<T>,
}

impl<T: SignalValue> RtsmRanges<T> {
    pub closed spec fn off(&self) -> Range<T> {
        self.off
    }

    pub closed spec fn on(&self) -> Range<T> {
        self.on
    }

    /// Ranges for off and on, if they are usable together.
    pub fn new(off: Range<T>, on: Range<T>) -> (r: Result<Self, ()>)
        ensures
            r is Ok <==> spec_ranges_are_valid(off, on),
            r is Ok <==> (range_has(off, off.start.int_value() + 1) && range_has(on, on.start.int_value() + 1)
                && forall|v: int| !(#[trigger] range_has(off, v) && range_has(on, v))),
            r matches Ok(x) ==> x.off() == off && x.on() == on,
    {
        proof {
            lemma_ranges_valid_when_disjoint(off, on);
        }
        if ranges_are_valid(&off, &on) {
            Ok(RtsmRanges { off, on })
        } else {
            Err(())
        }
    }

    /// Ranges known in advance to be usable together.
    pub fn new_unchecked(off: Range<T>, on: Range<T>) -> (r: Self)
        requires
            spec_ranges_are_valid(off, on),
        ensures
            r.off() == off && r.on() == on,
    {
        RtsmRanges { off, on }
    }
}

/// Off below 50, on from 50 to 99.
pub fn range_100_half() -> (r: RtsmRanges<u32>)
    ensures
        r.off().start == 0 && r.off().end == 50 && r.on().start == 50 && r.on().end == 100,
{
    RtsmRanges { off: 0..50, on: 50..100 }
}

/// Off below 25, on from 75 to 99.
pub fn range_100_quarter() -> (r: RtsmRanges<u32>)
    ensures
        r.off().start == 0 && r.off().end == 25 && r.on().start == 75 && r.on().end == 100,
{
    RtsmRanges { off: 0..25, on: 75..100 }
}

/// A range and the value of it in use.
struct RangeValue<T> {
    range: Range<T>,
    value: T,
}

impl<T: SignalValue> RangeValue<T> {
    fn from(range: Range<T>) -> (r: Self)
        ensures
            r.range == range,
            r.value == range.start,
    {
        RangeValue { value: range.start, range }
    }
}

/// The state of an RTSM encoder: the value in use in each range, and the last signal.
pub struct TxState {
    pub off_value: int,
    pub on_value: int,
    pub current: Option<bool>,
}

/// The encoder's step: the value for `s` is the value in use in its range, moved on to
/// the next one when the signal repeats.
pub open spec fn tx_step<T: SignalValue>(ranges: (Range<T>, Range<T>), st: TxState, s: bool) -> (
    TxState,
    int,
) {
    let range = if s { ranges.1 } else { ranges.0 };
    let v = if s { st.on_value } else { st.off_value };
    let v2 = if st.current == Some(s) {
        next_in_range(
            v,
            range.start.int_value(),
            range.end.int_value(),
            T::min_value(),
            T::max_value(),
        )
    } else {
        v
    };
    (
        if s {
            TxState { off_value: st.off_value, on_value: v2, current: Some(s) }
        } else {
            TxState { off_value: v2, on_value: st.on_value, current: Some(s) }
        },
        v2,
    )
}

/// The values that encode `signals`, from the state `st`.
pub open spec fn tx_values<T: SignalValue>(
    ranges: (Range<T>, Range<T>),
    st: TxState,
    signals: Seq<bool>,
) -> Seq<int>
    decreases signals.len(),
{
    if signals.len() == 0 {
        seq![]
    } else {
        let (st2, v) = tx_step(ranges, st, signals[0]);
        seq![v] + tx_values(ranges, st2, signals.drop_first())
    }
}

/// The state of a fresh encoder.
pub open spec fn tx_start<T: SignalValue>(ranges: (Range<T>, Range<T>)) -> TxState {
    TxState {
        off_value: ranges.0.start.int_value(),
        on_value: ranges.1.start.int_value(),
        current: None,
    }
}

/// The decoder's step for one value: the new last value, and the signal (none when the
/// value repeats), or the value itself when it lies in neither range.
pub open spec fn rx_decode<T: SignalValue>(
    ranges: (Range<T>, Range<T>),
    last: Option<int>,
    v: int,
) -> (Option<int>, Result<Option<bool>, int>) {
    if last == Some(v) {
        (last, Ok(None))
    } else if range_has(ranges.0, v) {
        (Some(v), Ok(Some(OFF)))
    } else if range_has(ranges.1, v) {
        (Some(v), Ok(Some(ON)))
    } else {
        (None, Err(v))
    }
}

/// The error of a value in neither range.
pub open spec fn decode_error_view(v: int) -> ErrorView {
    ErrorView::RtsmDecode(v as i128)
}

/// Everything an RTSM receiver hands out, from its last value and the outcomes of its
/// source.
pub open spec fn rx_run<T: SignalValue>(
    ranges: (Range<T>, Range<T>),
    last: Option<int>,
    input: Seq<Result<int, ErrorView>>,
) -> Seq<Result<bool, ErrorView>>
    decreases input.len(),
{
    if input.len() == 0 {
        seq![]
    } else {
        match input[0] {
            Err(e) => seq![Err(e)] + rx_run(ranges, last, input.drop_first()),
            Ok(x) => {
                let (last2, d) = rx_decode(ranges, last, x);
                match d {
                    Ok(None) => rx_run(ranges, last2, input.drop_first()),
                    Ok(Some(s)) => seq![Ok(s)] + rx_run(ranges, last2, input.drop_first()),
                    Err(v) => seq![Err(decode_error_view(v))] + rx_run(
                        ranges,
                        last2,
                        input.drop_first(),
                    ),
                }
            },
        }
    }
}

/// Outcomes with their values taken as integers.
pub open spec fn int_outcomes<T: SignalValue>(s: Seq<Result<T, ErrorView>>) -> Seq<
    Result<int, ErrorView>,
> {
    s.map_values(
        |e: Result<T, ErrorView>|
            match e {
                Ok(x) => Ok(x.int_value()),
                Err(err) => Err(err),
            },
    )
}

/// The integers of a sequence of values.
pub open spec fn ints<T: SignalValue>(s: Seq<T>) -> Seq<int> {
    s.map_values(|v: T| v.int_value())
}

/// RTSM transmitter: give it a signal, and it encodes that signal into a value and
/// sends the value down the pipeline.
pub struct RtsmTx<X: Tx> {
    tx: X,
    off: RangeValue<X::Item>,
    on: RangeValue<X::Item>,
    current: Option<Signal>,
    log: Ghost<Seq<Signal>>,
}

/// RTSM receiver.
pub struct RtsmRx<X: Rx> {
    rx: X,
    off: Range<X::Item>,
    on: Range<X::Item>,
    last: Option<X::Item>,
}

/// A value that lies in neither range.
#[derive(Copy, Clone, PartialEq, Eq, Structural)]
pub struct DecodeError<T>(pub T);

impl<T: SignalValue> DecodeError<T> {
    /// The error that travels along the pipeline.
    pub fn into_signal_error(self) -> (r: SignalError)
        ensures
            r@ == decode_error_view(self.0.int_value()),
    {
        SignalError::RtsmDecode(self.0.to_i128())
    }
}

impl<X: Tx> RtsmTx<X> where X::Item: SignalValue {
    pub closed spec fn inner(&self) -> X {
        self.tx
    }

    pub closed spec fn ranges(&self) -> (Range<X::Item>, Range<X::Item>) {
        (self.off.range, self.on.range)
    }

    pub closed spec fn state(&self) -> TxState {
        TxState {
            off_value: self.off.value.int_value(),
            on_value: self.on.value.int_value(),
            current: self.current,
        }
    }

    pub fn new(ranges: RtsmRanges<X::Item>, tx: X) -> (r: Self)
        ensures
            r.inner() == tx,
            r.ranges() == (ranges.off(), ranges.on()),
            r.state() == tx_start(r.ranges()),
            r.sent() == Seq::<Signal>::empty(),
    {
        RtsmTx {
            tx,
            off: RangeValue::from(ranges.off),
            on: RangeValue::from(ranges.on),
            current: None,
            log: Ghost(Seq::empty()),
        }
    }

    /// The transmitter the values went to.
    pub fn into_inner(self) -> (r: X)
        ensures
            r == self.inner(),
    {
        self.tx
    }

    /// Move the value in use in the range of `signal` on to the next one when the signal
    /// repeats, and return it. The last signal is left as it is.
    fn increment_range_if_needed(&mut self, signal: Signal) -> (r: X::Item)
        ensures
            final(self).tx == old(self).tx,
            final(self).log == old(self).log,
            final(self).current == old(self).current,
            final(self).ranges() == old(self).ranges(),
            r.int_value() == tx_step(old(self).ranges(), old(self).state(), signal).1,
            final(self).state() == (TxState { current: old(self).current, ..tx_step(old(self).ranges(), old(self).state(), signal).0 }),
    {
        let current = self.current;
        let rv = if signal { &mut self.on } else { &mut self.off };
        if let Some(current_signal) = current {
            if current_signal == signal {
                rv.value = rv.value.wrapping_next(&rv.range);
            }
        }
        rv.value
    }

    fn encode(&mut self, signal: Signal) -> (r: X::Item)
        ensures
            final(self).tx == old(self).tx,
            final(self).log == old(self).log,
            final(self).ranges() == old(self).ranges(),
            r.int_value() == tx_step(old(self).ranges(), old(self).state(), signal).1,
            final(self).state() == tx_step(old(self).ranges(), old(self).state(), signal).0,
    {
        let value = self.increment_range_if_needed(signal);
        self.current = Some(signal);
        value
    }
}

impl<X: Tx> Tx for RtsmTx<X> where X::Item: SignalValue {
    type Item = Signal;

    closed spec fn inv(&self) -> bool {
        self.tx.inv()
    }

    closed spec fn sent(&self) -> Seq<Signal> {
        self.log@
    }

    open spec fn infallible(&self) -> bool {
        self.inner().infallible()
    }

    fn send(&mut self, signal: Signal) -> (r: Result<(), SignalError>)
        ensures
            final(self).ranges() == old(self).ranges(),
            final(self).state() == tx_step(old(self).ranges(), old(self).state(), signal).0,
            r is Ok ==> final(self).inner().sent().len() == old(self).inner().sent().len() + 1
                && final(self).inner().sent().drop_last() == old(self).inner().sent()
                && final(self).inner().sent().last().int_value() == tx_step(
                old(self).ranges(),
                old(self).state(),
                signal,
            ).1,
            r is Err ==> final(self).inner().sent() == old(self).inner().sent(),
    {
        let value = self.encode(signal);
        let ghost before = self.tx.sent();
        let r = self.tx.send(value);
        proof {
            if r is Ok {
                self.log@ = self.log@.push(signal);
                assert(self.tx.sent().drop_last() =~= before);
            }
        }
        r
    }
}

impl<X: Rx> RtsmRx<X> where X::Item: SignalValue {
    pub closed spec fn inner(&self) -> X {
        self.rx
    }

    pub closed spec fn ranges(&self) -> (Range<X::Item>, Range<X::Item>) {
        (self.off, self.on)
    }

    /// The last value decoded, as an integer.
    pub closed spec fn last_value(&self) -> Option<int> {
        match self.last {
            Some(v) => Some(v.int_value()),
            None => None,
        }
    }

    pub fn new(ranges: RtsmRanges<X::Item>, rx: X) -> (r: Self)
        requires
            rx.inv(),
            rx.is_finite(),
        ensures
            r.inner() == rx,
            r.ranges() == (ranges.off(), ranges.on()),
            r.last_value() is None,
            r.inv(),
    {
        RtsmRx { rx, off: ranges.off, on: ranges.on, last: None }
    }

    fn signal_for_value(&self, value: X::Item) -> (r: Result<Signal, ()>)
        ensures
            range_has(self.off, value.int_value()) ==> r == Ok::<Signal, ()>(OFF),
            !range_has(self.off, value.int_value()) && range_has(self.on, value.int_value()) ==> r
                == Ok::<Signal, ()>(ON),
            !range_has(self.off, value.int_value()) && !range_has(self.on, value.int_value())
                ==> r is Err,
    {
        if range_contains(&self.off, &value) {
            Ok(OFF)
        } else if range_contains(&self.on, &value) {
            Ok(ON)
        } else {
            Err(())
        }
    }

    /// Decode one value: `None` when it repeats the last one.
    fn decode(&mut self, value: X::Item) -> (r: Result<Option<Signal>, DecodeError<X::Item>>)
        ensures
            final(self).rx == old(self).rx,
            final(self).ranges() == old(self).ranges(),
            final(self).last_value() == rx_decode(
                old(self).ranges(),
                old(self).last_value(),
                value.int_value(),
            ).0,
            match r {
                Ok(x) => rx_decode(old(self).ranges(), old(self).last_value(), value.int_value()).1
                    == Ok::<Option<bool>, int>(x),
                Err(e) => rx_decode(old(self).ranges(), old(self).last_value(), value.int_value()).1
                    == Err::<Option<bool>, int>(e.0.int_value()),
            },
    {
        if let Some(last_value) = self.last {
            if value.same_as(&last_value) {
                return Ok(None);
            }
        }
        match self.signal_for_value(value) {
            Ok(signal) => {
                self.last = Some(value);
                Ok(Some(signal))
            },
            Err(_) => {
                self.last = None;
                Err(DecodeError(value))
            },
        }
    }
}

impl<X: Rx> Rx for RtsmRx<X> where X::Item: SignalValue {
    type Item = Signal;

    closed spec fn inv(&self) -> bool {
        self.rx.inv() && self.rx.is_finite()
    }

    open spec fn is_finite(&self) -> bool {
        true
    }

    open spec fn outcomes(&self) -> Seq<Result<Signal, ErrorView>> {
        rx_run(self.ranges(), self.last_value(), int_outcomes(self.inner().outcomes()))
    }

    fn recv(&mut self) -> (r: Result<Option<Signal>, SignalError>) {
        let ghost target = self.outcomes();
        loop
            invariant
                self.inv(),
                self.outcomes() == target,
                target == old(self).outcomes(),
            decreases self.rx.outcomes().len(),
        {
            let ghost in0 = self.rx.outcomes();
            let ghost last0 = self.last_value();
            match self.rx.recv() {
                Err(e) => {
                    proof {
                        assert(int_outcomes(in0).drop_first() =~= int_outcomes(self.rx.outcomes()));
                        assert(target.drop_first() =~= self.outcomes());
                    }
                    return Err(e);
                },
                Ok(None) => {
                    return Ok(None);
                },
                Ok(Some(value)) => {
                    proof {
                        assert(in0[0] == Ok::<X::Item, ErrorView>(value));
                        assert(int_outcomes(in0).drop_first() =~= int_outcomes(self.rx.outcomes()));
                    }
                    match self.decode(value) {
                        Ok(None) => {},
                        Ok(Some(signal)) => {
                            proof {
                                assert(target.drop_first() =~= self.outcomes());
                            }
                            return Ok(Some(signal));
                        },
                        Err(e) => {
                            proof {
                                assert(target.drop_first() =~= self.outcomes());
                            }
                            return Err(e.into_signal_error());
                        },
                    }
                },
            }
        }
    }
}

/// Encoding a transmitter's values with RTSM.
pub trait RtsmTxExt: Tx {
    fn rtsm(self, ranges: RtsmRanges<Self::Item>) -> (r: RtsmTx<Self>)
        where Self::Item: SignalValue
        ensures
            r.inner() == self,
            r.ranges() == (ranges.off(), ranges.on()),
            r.state() == tx_start(r.ranges()),
    {
        RtsmTx::new(ranges, self)
    }
}

impl<X: Tx> RtsmTxExt for X {

}

/// Decoding a receiver's values with RTSM.
pub trait RtsmRxExt: Rx {
    fn rtsm(self, ranges: RtsmRanges<Self::Item>) -> (r: RtsmRx<Self>)
        where Self::Item: SignalValue
        requires
            self.inv(),
            self.is_finite(),
        ensures
            r.inner() == self,
            r.ranges() == (ranges.off(), ranges.on()),
            r.last_value() is None,
            r.inv(),
    {
        RtsmRx::new(ranges, self)
    }
}

impl<X: Rx> RtsmRxExt for X {

}

/// The value after `v` in a range of more than one value differs from `v` and stays in
/// the range.
pub proof fn lemma_next_in_range(v: int, start: int, end: int, min: int, max: int)
    requires
        start <= v < end,
        end - start > 1,
        min <= start,
        end <= max,
    ensures
        start <= next_in_range(v, start, end, min, max) < end,
        next_in_range(v, start, end, min, max) != v,
{
}

/// The state of an encoder and the last value of a decoder that go together: each value
/// in use lies in its range, and the decoder last read the value of the last signal.
pub open spec fn tx_rx_agree<T: SignalValue>(
    ranges: (Range<T>, Range<T>),
    st: TxState,
    last: Option<int>,
) -> bool {
    &&& range_has(ranges.0, st.off_value)
    &&& range_has(ranges.1, st.on_value)
    &&& match st.current {
        None => last is None,
        Some(true) => last == Some(st.on_value),
        Some(false) => last == Some(st.off_value),
    }
}

/// Values taken as successful outcomes.
pub open spec fn all_ok<A>(s: Seq<A>) -> Seq<Result<A, ErrorView>> {
    s.map_values(|x: A| Ok::<A, ErrorView>(x))
}

proof fn lemma_rtsm_run<T: SignalValue>(
    ranges: (Range<T>, Range<T>),
    st: TxState,
    last: Option<int>,
    signals: Seq<bool>,
)
    requires
        spec_ranges_are_valid(ranges.0, ranges.1),
        tx_rx_agree(ranges, st, last),
    ensures
        rx_run(ranges, last, all_ok(tx_values(ranges, st, signals))) == all_ok(signals),
    decreases signals.len(),
{
    if signals.len() == 0 {
        assert(all_ok(tx_values(ranges, st, signals)) =~= Seq::<Result<int, ErrorView>>::empty());
        assert(all_ok(signals) =~= Seq::<Result<bool, ErrorView>>::empty());
    } else {
        let s0 = signals[0];
        let rest = signals.drop_first();
        let (st2, v) = tx_step(ranges, st, s0);
        T::lemma_value(ranges.0.start, ranges.0.end);
        T::lemma_value(ranges.0.end, ranges.0.start);
        T::lemma_value(ranges.1.start, ranges.1.end);
        T::lemma_value(ranges.1.end, ranges.1.start);
        let range = if s0 { ranges.1 } else { ranges.0 };
        let cur = if s0 { st.on_value } else { st.off_value };
        if st.current == Some(s0) {
            lemma_next_in_range(
                cur,
                range.start.int_value(),
                range.end.int_value(),
                T::min_value(),
                T::max_value(),
            );
        }
        assert(range_has(range, v));
        assert(last != Some(v));
        lemma_rtsm_run(ranges, st2, Some(v), rest);
        let input = all_ok(tx_values(ranges, st, signals));
        assert(tx_values(ranges, st, signals) == seq![v] + tx_values(ranges, st2, rest));
        assert(input[0] == Ok::<int, ErrorView>(v));
        assert(input.drop_first() =~= all_ok(tx_values(ranges, st2, rest)));
        assert(all_ok(signals) =~= seq![Ok::<bool, ErrorView>(s0)] + all_ok(rest));
    }
}

/// Law: an RTSM receiver decodes, from the values that an RTSM transmitter with the
/// same usable ranges sends for `signals`, exactly `signals`.
pub proof fn lemma_rtsm_roundtrip<T: SignalValue>(off: Range<T>, on: Range<T>, signals: Seq<bool>)
    requires
        spec_ranges_are_valid(off, on),
    ensures
        rx_run((off, on), None, all_ok(tx_values((off, on), tx_start((off, on)), signals)))
            == all_ok(signals),
{
    lemma_rtsm_run((off, on), tx_start((off, on)), None, signals);
}

impl SignalValue for u8 {
    open spec fn int_value(&self) -> int {
        *self as int
    }

    open spec fn min_value() -> int {
        u8::MIN as int
    }

    open spec fn max_value() -> int {
        u8::MAX as int
    }

    proof fn lemma_value(a: Self, b: Self) {
    }

    fn one() -> (r: Self) {
        1
    }

    fn wrapping_next(&self, range: &Range<Self>) -> (r: Self) {
        let next = if *self == u8::MAX {
            u8::MIN
        } else {
            *self + 1
        };
        if range.start <= next && next < range.end {
            next
        } else {
            range.start
        }
    }

    fn less_than(&self, other: &Self) -> (r: bool) {
        *self < *other
    }

    fn same_as(&self, other: &Self) -> (r: bool) {
        *self == *other
    }

    fn span_exceeds_one(start: &Self, end: &Self) -> (r: bool) {
        (*end as i128) - (*start as i128) > 1
    }

    fn to_i128(&self) -> (r: i128) {
        *self as i128
    }
}

impl SignalValue for u16 {
    open spec fn int_value(&self) -> int {
        *self as int
    }

    open spec fn min_value() -> int {
        u16::MIN as int
    }

    open spec fn max_value() -> int {
        u16::MAX as int
    }

    proof fn lemma_value(a: Self, b: Self) {
    }

    fn one() -> (r: Self) {
        1
    }

    fn wrapping_next(&self, range: &Range<Self>) -> (r: Self) {
        let next = if *self == u16::MAX {
            u16::MIN
        } else {
            *self + 1
        };
        if range.start <= next && next < range.end {
            next
        } else {
            range.start
        }
    }

    fn less_than(&self, other: &Self) -> (r: bool) {
        *self < *other
    }

    fn same_as(&self, other: &Self) -> (r: bool) {
        *self == *other
    }

    fn span_exceeds_one(start: &Self, end: &Self) -> (r: bool) {
        (*end as i128) - (*start as i128) > 1
    }

    fn to_i128(&self) -> (r: i128) {
        *self as i128
    }
}

impl SignalValue for u32 {
    open spec fn int_value(&self) -> int {
        *self as int
    }

    open spec fn min_value() -> int {
        u32::MIN as int
    }

    open spec fn max_value() -> int {
        u32::MAX as int
    }

    proof fn lemma_value(a: Self, b: Self) {
    }

    fn one() -> (r: Self) {
        1
    }

    fn wrapping_next(&self, range: &Range<Self>) -> (r: Self) {
        let next = if *self == u32::MAX {
            u32::MIN
        } else {
            *self + 1
        };
        if range.start <= next && next < range.end {
            next
        } else {
            range.start
        }
    }

    fn less_than(&self, other: &Self) -> (r: bool) {
        *self < *other
    }

    fn same_as(&self, other: &Self) -> (r: bool) {
        *self == *other
    }

    fn span_exceeds_one(start: &Self, end: &Self) -> (r: bool) {
        (*end as i128) - (*start as i128) > 1
    }

    fn to_i128(&self) -> (r: i128) {
        *self as i128
    }
}

impl SignalValue for u64 {
    open spec fn int_value(&self) -> int {
        *self as int
    }

    open spec fn min_value() -> int {
        u64::MIN as int
    }

    open spec fn max_value() -> int {
        u64::MAX as int
    }

    proof fn lemma_value(a: Self, b: Self) {
    }

    fn one() -> (r: Self) {
        1
    }

    fn wrapping_next(&self, range: &Range<Self>) -> (r: Self) {
        let next = if *self == u64::MAX {
            u64::MIN
        } else {
            *self + 1
        };
        if range.start <= next && next < range.end {
            next
        } else {
            range.start
        }
    }

    fn less_than(&self, other: &Self) -> (r: bool) {
        *self < *other
    }

    fn same_as(&self, other: &Self) -> (r: bool) {
        *self == *other
    }

    fn span_exceeds_one(start: &Self, end: &Self) -> (r: bool) {
        (*end as i128) - (*start as i128) > 1
    }

    fn to_i128(&self) -> (r: i128) {
        *self as i128
    }
}

impl SignalValue for usize {
    open spec fn int_value(&self) -> int {
        *self as int
    }

    open spec fn min_value() -> int {
        usize::MIN as int
    }

    open spec fn max_value() -> int {
        usize::MAX as int
    }

    proof fn lemma_value(a: Self, b: Self) {
    }

    fn one() -> (r: Self) {
        1
    }

    fn wrapping_next(&self, range: &Range<Self>) -> (r: Self) {
        let next = if *self == usize::MAX {
            usize::MIN
        } else {
            *self + 1
        };
        if range.start <= next && next < range.end {
            next
        } else {
            range.start
        }
    }

    fn less_than(&self, other: &Self) -> (r: bool) {
        *self < *other
    }

    fn same_as(&self, other: &Self) -> (r: bool) {
        *self == *other
    }

    fn span_exceeds_one(start: &Self, end: &Self) -> (r: bool) {
        (*end as i128) - (*start as i128) > 1
    }

    fn to_i128(&self) -> (r: i128) {
        *self as i128
    }
}

impl SignalValue for i8 {
    open spec fn int_value(&self) -> int {
        *self as int
    }

    open spec fn min_value() -> int {
        i8::MIN as int
    }

    open spec fn max_value() -> int {
        i8::MAX as int
    }

    proof fn lemma_value(a: Self, b: Self) {
    }

    fn one() -> (r: Self) {
        1
    }

    fn wrapping_next(&self, range: &Range<Self>) -> (r: Self) {
        let next = if *self == i8::MAX {
            i8::MIN
        } else {
            *self + 1
        };
        if range.start <= next && next < range.end {
            next
        } else {
            range.start
        }
    }

    fn less_than(&self, other: &Self) -> (r: bool) {
        *self < *other
    }

    fn same_as(&self, other: &Self) -> (r: bool) {
        *self == *other
    }

    fn span_exceeds_one(start: &Self, end: &Self) -> (r: bool) {
        (*end as i128) - (*start as i128) > 1
    }

    fn to_i128(&self) -> (r: i128) {
        *self as i128
    }
}

impl SignalValue for i16 {
    open spec fn int_value(&self) -> int {
        *self as int
    }

    open spec fn min_value() -> int {
        i16::MIN as int
    }

    open spec fn max_value() -> int {
        i16::MAX as int
    }

    proof fn lemma_value(a: Self, b: Self) {
    }

    fn one() -> (r: Self) {
        1
    }

    fn wrapping_next(&self, range: &Range<Self>) -> (r: Self) {
        let next = if *self == i16::MAX {
            i16::MIN
        } else {
            *self + 1
        };
        if range.start <= next && next < range.end {
            next
        } else {
            range.start
        }
    }

    fn less_than(&self, other: &Self) -> (r: bool) {
        *self < *other
    }

    fn same_as(&self, other: &Self) -> (r: bool) {
        *self == *other
    }

    fn span_exceeds_one(start: &Self, end: &Self) -> (r: bool) {
        (*end as i128) - (*start as i128) > 1
    }

    fn to_i128(&self) -> (r: i128) {
        *self as i128
    }
}

impl SignalValue for i32 {
    open spec fn int_value(&self) -> int {
        *self as int
    }

    open spec fn min_value() -> int {
        i32::MIN as int
    }

    open spec fn max_value() -> int {
        i32::MAX as int
    }

    proof fn lemma_value(a: Self, b: Self) {
    }

    fn one() -> (r: Self) {
        1
    }

    fn wrapping_next(&self, range: &Range<Self>) -> (r: Self) {
        let next = if *self == i32::MAX {
            i32::MIN
        } else {
            *self + 1
        };
        if range.start <= next && next < range.end {
            next
        } else {
            range.start
        }
    }

    fn less_than(&self, other: &Self) -> (r: bool) {
        *self < *other
    }

    fn same_as(&self, other: &Self) -> (r: bool) {
        *self == *other
    }

    fn span_exceeds_one(start: &Self, end: &Self) -> (r: bool) {
        (*end as i128) - (*start as i128) > 1
    }

    fn to_i128(&self) -> (r: i128) {
        *self as i128
    }
}

impl SignalValue for i64 {
    open spec fn int_value(&self) -> int {
        *self as int
    }

    open spec fn min_value() -> int {
        i64::MIN as int
    }

    open spec fn max_value() -> int {
        i64::MAX as int
    }

    proof fn lemma_value(a: Self, b: Self) {
    }

    fn one() -> (r: Self) {
        1
    }

    fn wrapping_next(&self, range: &Range<Self>) -> (r: Self) {
        let next = if *self == i64::MAX {
            i64::MIN
        } else {
            *self + 1
        };
        if range.start <= next && next < range.end {
            next
        } else {
            range.start
        }
    }

    fn less_than(&self, other: &Self) -> (r: bool) {
        *self < *other
    }

    fn same_as(&self, other: &Self) -> (r: bool) {
        *self == *other
    }

    fn span_exceeds_one(start: &Self, end: &Self) -> (r: bool) {
        (*end as i128) - (*start as i128) > 1
    }

    fn to_i128(&self) -> (r: i128) {
        *self as i128
    }
}

impl SignalValue for isize {
    open spec fn int_value(&self) -> int {
        *self as int
    }

    open spec fn min_value() -> int {
        isize::MIN as int
    }

    open spec fn max_value() -> int {
        isize::MAX as int
    }

    proof fn lemma_value(a: Self, b: Self) {
    }

    fn one() -> (r: Self) {
        1
    }

    fn wrapping_next(&self, range: &Range<Self>) -> (r: Self) {
        let next = if *self == isize::MAX {
            isize::MIN
        } else {
            *self + 1
        };
        if range.start <= next && next < range.end {
            next
        } else {
            range.start
        }
    }

    fn less_than(&self, other: &Self) -> (r: bool) {
        *self < *other
    }

    fn same_as(&self, other: &Self) -> (r: bool) {
        *self == *other
    }

    fn span_exceeds_one(start: &Self, end: &Self) -> (r: bool) {
        (*end as i128) - (*start as i128) > 1
    }

    fn to_i128(&self) -> (r: i128) {
        *self as i128
    }
}

} // verus!
