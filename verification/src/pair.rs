//! A transmitter and a receiver joined by a channel of std.
use vstd::prelude::*;

use std::sync::mpsc::{Receiver, Sender};

use crate::rx::Rx;
use crate::signal_error::{ErrorView, SignalError};
use crate::tx::Tx;

verus! {

#[verifier::external_type_specification]
#[verifier::external_body]
#[verifier::reject_recursive_types(T)]
pub struct ExSender<T>(Sender<T>);

#[verifier::external_type_specification]
#[verifier::external_body]
#[verifier::reject_recursive_types(T)]
pub struct ExReceiver<T>(Receiver<T>);

/// `std::sync::mpsc::channel`: a new channel, its sending and its receiving half.
#[verifier::external_body]
fn new_channel<T>() -> (Sender<T>, Receiver<T>) {
    std::sync::mpsc::channel()
}

/// `Sender::send`: `true` when the value was queued, `false` when the receiving half is
/// gone. Which of the two comes depends on the other thread, so nothing is stated.
#[verifier::external_body]
fn channel_send<T>(sender: &Sender<T>, value: T) -> (r: bool) {
    match sender.send(value) {
        Ok(()) => true,
        Err(_) => false,
    }
}

/// `Receiver::recv`: the next value, or `None` once every sending half is gone and the
/// channel is empty. What comes depends on the other threads, so nothing is stated.
#[verifier::external_body]
fn channel_recv<T>(receiver: &Receiver<T>) -> (r: Option<T>) {
    match receiver.recv() {
        Ok(value) => Some(value),
        Err(_) => None,
    }
}

/// The sending half of a channel.
#[verifier::reject_recursive_types(T)]
pub struct SenderTx<T> {
    sender: Sender<T>,
    log: Ghost<Seq<T>>,
}

/// The receiving half of a channel. Never returns an error: once the sending half hung
/// up, every further call to `recv` reports the end.
#[verifier::reject_recursive_types(T)]
pub struct ReceiverRx<T> {
    receiver: Receiver<T>,
}

/// A new channel.
pub fn pair<T>() -> (r: (SenderTx<T>, ReceiverRx<T>))
    ensures
        r.0.sent() == Seq::<T>::empty(),
{
    let (sender, receiver) = new_channel();
    (SenderTx { sender, log: Ghost(Seq::empty()) }, ReceiverRx { receiver })
}

impl<T> Tx for SenderTx<T> {
    type Item = T;

    open spec fn inv(&self) -> bool {
        true
    }

    closed spec fn sent(&self) -> Seq<T> {
        self.log@
    }

    open spec fn infallible(&self) -> bool {
        false
    }

    /// Fails with `Disconnected` when the receiving half is gone.
    fn send(&mut self, value: T) -> (r: Result<(), SignalError>)
        ensures
            r matches Err(e) ==> e is Disconnected,
    {
        let ghost v = value;
        if channel_send(&self.sender, value) {
            proof {
                self.log@ = self.log@.push(v);
            }
            Ok(())
        } else {
            Err(SignalError::Disconnected)
        }
    }
}

impl<T> Rx for ReceiverRx<T> {
    type Item = T;

    open spec fn inv(&self) -> bool {
        true
    }

    open spec fn is_finite(&self) -> bool {
        false
    }

    open spec fn outcomes(&self) -> Seq<Result<T, ErrorView>> {
        seq![]
    }

    fn recv(&mut self) -> (r: Result<Option<T>, SignalError>)
        ensures
            r is Ok,
    {
        Ok(channel_recv(&self.receiver))
    }
}

} // verus!
