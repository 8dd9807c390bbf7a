//! Pacing of a transmitter or a receiver: at most one call per period.
use vstd::prelude::*;

use std::marker::PhantomData;

verus! {

/// Which end of a pipeline an `Interval` paces.
pub trait IntervalRole: Sealed {
    fn role_name() -> &'static str;
}

/// Paces a transmitter.
pub struct IntervalRoleTx;

/// Paces a receiver.
pub struct IntervalRoleRx;

/// Only the two roles above exist.
pub trait Sealed {

}

impl Sealed for IntervalRoleTx {

}

impl Sealed for IntervalRoleRx {

}

impl IntervalRole for IntervalRoleTx {
    fn role_name() -> &'static str {
        "Tx"
    }
}

impl IntervalRole for IntervalRoleRx {
    fn role_name() -> &'static str {
        "Rx"
    }
}

/// What to do before the next call, at a given time.
#[derive(Clone, Copy, PartialEq, Eq, Debug, Structural)]
pub enum NextCall {
    /// There was no call yet: go ahead.
    First,
    /// Sleep this many nanoseconds first.
    Wait(u128),
    /// The clock went back since the last call: go ahead.
    ClockDrift,
    /// The period is over by this many nanoseconds: go ahead.
    Late(u128),
}

/// Paces the calls on `inner` to one per `rate`. Times are nanoseconds on one clock.
pub struct Interval<X, R> {
    inner: X,
    rate: u128,
    last: Option<u128>,
    role: PhantomData<R>,
}

/// What to do before a call at `now`, with the last call at `last`.
pub open spec fn next_call(rate: u128, last: Option<u128>, now: u128) -> NextCall {
    match last {
        None => NextCall::First,
        Some(t) => if now < t {
            NextCall::ClockDrift
        } else if now - t <= rate {
            NextCall::Wait((rate - (now - t)) as u128)
        } else {
            NextCall::Late((now - t - rate) as u128)
        },
    }
}

impl<X, R: IntervalRole> Interval<X, R> {
    pub closed spec fn inner(&self) -> X {
        self.inner
    }

    pub closed spec fn rate(&self) -> u128 {
        self.rate
    }

    /// When the last call was made, if any.
    pub closed spec fn last_call(&self) -> Option<u128> {
        self.last
    }

    pub fn new(inner: X, rate: u128) -> (r: Self)
        ensures
            r.inner() == inner,
            r.rate() == rate,
            r.last_call() is None,
    {
        Interval { inner, rate, last: None, role: PhantomData }
    }

    /// How long to wait, at `now`, before the next call.
    pub fn duration_until_next_call(&self, now: u128) -> (r: NextCall)
        ensures
            r == next_call(self.rate(), self.last_call(), now),
    {
        let last = match self.last {
            Some(time) => time,
            None => return NextCall::First,
        };
        if now < last {
            return NextCall::ClockDrift;
        }
        let elapsed = now - last;
        if elapsed <= self.rate {
            NextCall::Wait(self.rate - elapsed)
        } else {
            NextCall::Late(elapsed - self.rate)
        }
    }

    /// Record that a call is made at `now`.
    pub fn update_last_call_time(&mut self, now: u128)
        ensures
            final(self).last_call() == Some(now),
            final(self).inner() == old(self).inner(),
            final(self).rate() == old(self).rate(),
    {
        self.last = Some(now);
    }

    pub fn get_inner(&self) -> (r: &X)
        ensures
            *r == self.inner(),
    {
        &self.inner
    }

    pub fn into_inner(self) -> (r: X)
        ensures
            r == self.inner(),
    {
        self.inner
    }
}

} // verus!
