//! Signals written as ASCII text: `-` for on and a space for off.
use vstd::prelude::*;

use crate::morse::{OFF, ON, Signal};
use crate::rx::Rx;
use crate::signal_error::{ErrorView, SignalError};
use crate::tx::Tx;

verus! {

pub const ASCII_ON: char = '-';

pub const ASCII_OFF: char = ' ';

/// The character of a signal state.
pub open spec fn ascii_of(state: Signal) -> char {
    if state {
        ASCII_ON
    } else {
        ASCII_OFF
    }
}

/// The signal state of a character, if it stands for one.
pub open spec fn signal_of_ascii(c: char) -> Option<Signal> {
    if c == ASCII_ON {
        Some(ON)
    } else if c == ASCII_OFF {
        Some(OFF)
    } else {
        None
    }
}

/// Writes each signal state as a character.
pub struct SignalToAsciiTx<X> {
    inner: X,
    log: Ghost<Seq<Signal>>,
}

impl<X> SignalToAsciiTx<X> {
    pub closed spec fn inner(&self) -> X {
        self.inner
    }

    pub fn new(inner: X) -> (r: Self)
        ensures
            r.inner() == inner,
    {
        SignalToAsciiTx { inner, log: Ghost(Seq::empty()) }
    }

    /// The character of a signal state.
    pub fn encode(&self, state: Signal) -> (r: char)
        ensures
            r == ascii_of(state),
    {
        if state {
            ASCII_ON
        } else {
            ASCII_OFF
        }
    }
}

impl<X: Tx<Item = char>> Tx for SignalToAsciiTx<X> {
    type Item = Signal;

    closed spec fn inv(&self) -> bool {
        self.inner.inv()
    }

    closed spec fn sent(&self) -> Seq<Signal> {
        self.log@
    }

    open spec fn infallible(&self) -> bool {
        self.inner().infallible()
    }

    fn send(&mut self, value: Signal) -> (r: Result<(), SignalError>)
        ensures
            r is Ok ==> final(self).inner().sent() == old(self).inner().sent().push(
                ascii_of(value),
            ),
            r is Err ==> final(self).inner().sent() == old(self).inner().sent(),
    {
        let c = self.encode(value);
        let r = self.inner.send(c);
        proof {
            if r is Ok {
                self.log@ = self.log@.push(value);
            }
        }
        r
    }
}

/// Reads signal states from characters, skipping characters that stand for none.
pub struct SignalFromAsciiRx<X> {
    inner: X,
}

/// What a `SignalFromAsciiRx` hands out for the outcomes of its source.
pub open spec fn ascii_run(input: Seq<Result<char, ErrorView>>) -> Seq<Result<Signal, ErrorView>>
    decreases input.len(),
{
    if input.len() == 0 {
        seq![]
    } else {
        match input[0] {
            Err(e) => seq![Err(e)] + ascii_run(input.drop_first()),
            Ok(c) => match signal_of_ascii(c) {
                Some(s) => seq![Ok(s)] + ascii_run(input.drop_first()),
                None => ascii_run(input.drop_first()),
            },
        }
    }
}

impl<X> SignalFromAsciiRx<X> {
    pub closed spec fn inner(&self) -> X {
        self.inner
    }

    pub fn new(inner: X) -> (r: Self)
        ensures
            r.inner() == inner,
    {
        SignalFromAsciiRx { inner }
    }

    /// The signal state of a character, if it stands for one.
    pub fn decode(&self, c: char) -> (r: Option<Signal>)
        ensures
            r == signal_of_ascii(c),
    {
        if c == ASCII_ON {
            Some(ON)
        } else if c == ASCII_OFF {
            Some(OFF)
        } else {
            None
        }
    }
}

impl<X: Rx<Item = char>> Rx for SignalFromAsciiRx<X> {
    type Item = Signal;

    closed spec fn inv(&self) -> bool {
        self.inner.inv() && self.inner.is_finite()
    }

    open spec fn is_finite(&self) -> bool {
        true
    }

    open spec fn outcomes(&self) -> Seq<Result<Signal, ErrorView>> {
        ascii_run(self.inner().outcomes())
    }

    fn recv(&mut self) -> (r: Result<Option<Signal>, SignalError>) {
        let ghost target = self.outcomes();
        loop
            invariant
                self.inv(),
                self.outcomes() == target,
                target == old(self).outcomes(),
            decreases self.inner.outcomes().len(),
        {
            match self.inner.recv() {
                Err(e) => {
                    proof {
                        assert(target.drop_first() =~= self.outcomes());
                    }
                    return Err(e);
                },
                Ok(None) => {
                    return Ok(None);
                },
                Ok(Some(c)) => match self.decode(c) {
                    None => {},
                    Some(state) => {
                        proof {
                            assert(target.drop_first() =~= self.outcomes());
                        }
                        return Ok(Some(state));
                    },
                },
            }
        }
    }
}

/// Reading signal states from characters.
pub trait AsciiRxExt: Rx<Item = char> {
    fn signal_from_ascii(self) -> (r: SignalFromAsciiRx<Self>)
        ensures
            r.inner() == self,
    {
        SignalFromAsciiRx::new(self)
    }
}

impl<X: Rx<Item = char>> AsciiRxExt for X {

}

} // verus!
