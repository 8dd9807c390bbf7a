//! Transmitting ends of signal pipelines.
use vstd::prelude::*;

use std::sync::Arc;
use std::sync::atomic::AtomicBool;

use crate::signal_error::SignalError;

verus! {

/// A sink of values. `sent` is the sequence of the values it has accepted so far.
pub trait Tx: Sized {
    type Item;

    /// Validity of the transmitter's state.
    spec fn inv(&self) -> bool;

    /// The values this transmitter has accepted, oldest first.
    spec fn sent(&self) -> Seq<Self::Item>;

    /// Whether this transmitter accepts every value.
    spec fn infallible(&self) -> bool;

    /// Blocking send of one value.
    fn send(&mut self, value: Self::Item) -> (r: Result<(), SignalError>)
        requires
            old(self).inv(),
        ensures
            final(self).inv(),
            r is Ok ==> final(self).sent() == old(self).sent().push(value),
            r is Err ==> final(self).sent() == old(self).sent(),
            old(self).infallible() ==> r is Ok && final(self).infallible(),
    ;

    /// Refuse every value once `cancellation_token` is set.
    fn cancel_on(self, cancellation_token: Arc<AtomicBool>) -> (r: CancellableTx<Self>)
        ensures
            r.inner() == self,
    {
        CancellableTx::new(cancellation_token, self)
    }
}

/// What `send_all` leaves in a transmitter: all of `values` after `before`, or,
/// after an error, the values before the one that failed.
pub open spec fn sent_all<T>(before: Seq<T>, values: Seq<T>, after: Seq<T>, ok: bool) -> bool {
    if ok {
        after == before + values
    } else {
        exists|k: int| 0 <= k < values.len() && after == before + values.take(k)
    }
}

/// Sending a whole sequence of values.
pub trait TxExt: Tx {
    /// Send the values in order, stopping at the first error.
    fn send_all(&mut self, values: Vec<Self::Item>) -> (r: Result<(), SignalError>)
        requires
            old(self).inv(),
        ensures
            final(self).inv(),
            sent_all(old(self).sent(), values@, final(self).sent(), r is Ok),
            old(self).infallible() ==> r is Ok && final(self).infallible(),
    {
        let ghost start = self.sent();
        let ghost all = values@;
        let mut rest = values;
        let n = rest.len();
        let mut i: usize = 0;
        while rest.len() > 0
            invariant
                self.inv(),
                old(self).infallible() ==> self.infallible(),
                rest@.len() + i == all.len(),
                all.len() == n,
                start == old(self).sent(),
                all == values@,
                rest@ == all.skip(i as int),
                self.sent() == start + all.take(i as int),
            decreases rest.len(),
        {
            let value = rest.remove(0);
            proof {
                assert(rest@ =~= all.skip(i + 1));
                assert(value == all[i as int]);
            }
            match self.send(value) {
                Ok(()) => {},
                Err(e) => {
                    assert(0 <= i < all.len() && self.sent() == start + all.take(i as int));
                    return Err(e);
                },
            }
            proof {
                assert(all.take(i + 1) =~= all.take(i as int).push(all[i as int]));
            }
            i = i + 1;
        }
        proof {
            assert(all.take(i as int) =~= all);
        }
        Ok(())
    }
}

impl<X: Tx> TxExt for X {

}

/// Accepts and forgets every value.
pub struct NullTx<T> {
    log: Ghost<Seq<T>>,
}

impl<T> NullTx<T> {
    pub fn new() -> (r: Self)
        ensures
            r.sent() == Seq::<T>::empty(),
    {
        NullTx { log: Ghost(Seq::empty()) }
    }
}

impl<T> Tx for NullTx<T> {
    type Item = T;

    open spec fn inv(&self) -> bool {
        true
    }

    closed spec fn sent(&self) -> Seq<T> {
        self.log@
    }

    open spec fn infallible(&self) -> bool {
        true
    }

    fn send(&mut self, value: T) -> (r: Result<(), SignalError>)
        ensures
            r is Ok,
    {
        proof {
            self.log@ = self.log@.push(value);
        }
        Ok(())
    }
}

/// Appends every value to a vector.
pub struct VecCollectorTx<T> {
    buffer: Vec<T>,
}

impl<T> VecCollectorTx<T> {
    pub fn new(buffer: Vec<T>) -> (r: Self)
        ensures
            r.sent() == buffer@,
    {
        VecCollectorTx { buffer }
    }

    /// The vector with everything sent.
    pub fn into_buffer(self) -> (r: Vec<T>)
        ensures
            r@ == self.sent(),
    {
        self.buffer
    }
}

impl<T> Tx for VecCollectorTx<T> {
    type Item = T;

    open spec fn inv(&self) -> bool {
        true
    }

    closed spec fn sent(&self) -> Seq<T> {
        self.buffer@
    }

    open spec fn infallible(&self) -> bool {
        true
    }

    fn send(&mut self, value: T) -> (r: Result<(), SignalError>)
        ensures
            r is Ok,
    {
        self.buffer.push(value);
        Ok(())
    }
}

/// Passes values through unless `cancellation_token` is set, in which case it
/// refuses them with `SignalError::Cancelled`.
pub struct CancellableTx<X> {
    tx: X,
    cancellation_token: Arc<AtomicBool>,
}

/// Specific error to indicate that a chain was cancelled by its cancellation token.
pub struct CancelledError;

impl CancelledError {
    /// The error that travels along the pipeline for a cancellation.
    pub fn into_signal_error(self) -> (r: SignalError)
        ensures
            r is Cancelled,
    {
        SignalError::Cancelled
    }
}

impl<X> CancellableTx<X> {
    pub closed spec fn inner(&self) -> X {
        self.tx
    }

    pub fn new(cancellation_token: Arc<AtomicBool>, tx: X) -> (r: Self)
        ensures
            r.inner() == tx,
    {
        CancellableTx { tx, cancellation_token }
    }
}

impl<X: Tx> CancellableTx<X> {
    /// Send `value` unless `cancelled`, which is what the token reads: a cancelled
    /// transmitter refuses the value with `Cancelled` and stays as it is; otherwise the
    /// value goes to the inner transmitter.
    pub fn send_unless_cancelled(&mut self, cancelled: bool, value: X::Item) -> (r: Result<(), SignalError>)
        requires
            old(self).inner().inv(),
        ensures
            cancelled ==> (r matches Err(e) && e is Cancelled) && *final(self) == *old(self),
            !cancelled ==> final(self).inner().inv(),
            !cancelled && r is Ok ==> final(self).inner().sent() == old(self).inner().sent().push(value),
            !cancelled && r is Err ==> final(self).inner().sent() == old(self).inner().sent(),
            !cancelled && old(self).inner().infallible() ==> r is Ok,
    {
        if cancelled {
            Err(CancelledError.into_signal_error())
        } else {
            self.tx.send(value)
        }
    }
}

impl<X: Tx> Tx for CancellableTx<X> {
    type Item = X::Item;

    open spec fn inv(&self) -> bool {
        self.inner().inv()
    }

    open spec fn sent(&self) -> Seq<X::Item> {
        self.inner().sent()
    }

    open spec fn infallible(&self) -> bool {
        false
    }

    /// Refuses the value when the token is set, as it reads at the call; otherwise the
    /// inner transmitter decides.
    fn send(&mut self, value: X::Item) -> (r: Result<(), SignalError>)
        ensures
            r is Err ==> (r matches Err(e) && e is Cancelled) || final(self).inner().sent()
                == old(self).inner().sent(),
            old(self).inner().infallible() ==> r is Ok || (r matches Err(e) && e is Cancelled),
    {
        let cancelled = self.cancellation_token.load(std::sync::atomic::Ordering::Relaxed);
        self.send_unless_cancelled(cancelled, value)
    }
}

/// Hands every value to a function of the user.
pub struct CustomTx<F, T> {
    handler: F,
    log: Ghost<Seq<T>>,
}

impl<F: Fn(T) -> Result<(), SignalError>, T> CustomTx<F, T> {
    pub closed spec fn handler(&self) -> F {
        self.handler
    }

    pub fn new(handler: F) -> (r: Self)
        requires
            forall|v: T| call_requires(handler, (v,)),
        ensures
            r.handler() == handler,
            r.sent() == Seq::<T>::empty(),
            r.inv(),
    {
        CustomTx { handler, log: Ghost(Seq::empty()) }
    }
}

impl<F: Fn(T) -> Result<(), SignalError>, T> Tx for CustomTx<F, T> {
    type Item = T;

    closed spec fn inv(&self) -> bool {
        forall|v: T| call_requires(self.handler, (v,))
    }

    closed spec fn sent(&self) -> Seq<T> {
        self.log@
    }

    open spec fn infallible(&self) -> bool {
        false
    }

    fn send(&mut self, value: T) -> (r: Result<(), SignalError>)
        ensures
            final(self).handler() == old(self).handler(),
            call_ensures(old(self).handler(), (value,), r),
    {
        let ghost v = value;
        assert(call_requires(self.handler, (value,)));
        let r = (self.handler)(value);
        proof {
            if r is Ok {
                self.log@ = self.log@.push(v);
            }
        }
        r
    }
}

} // verus!
