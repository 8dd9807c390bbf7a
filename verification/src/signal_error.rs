//! The error that travels along signal pipelines.
use vstd::prelude::*;

use crate::morse::{CodePoint, MorseDecodeError, Signal};

verus! {

/// Why a `Tx` refused a value or an `Rx` failed to produce one.
#[derive(Clone, Debug)]
pub enum SignalError {
    /// The Morse decoder met a signal or a letter it cannot decode.
    Morse(MorseDecodeError),
    /// The RTSM receiver met a value outside both of its ranges.
    RtsmDecode(i128),
    /// The transmitter was cancelled through its cancellation token.
    Cancelled,
    /// The other end of a channel hung up.
    Disconnected,
    /// An error raised by a handler of the user.
    Custom(String),
}

/// The mathematical value of a `MorseDecodeError`.
pub enum MorseErrorView {
    Signal(Seq<Signal>),
    Letter(Seq<CodePoint>),
}

/// The mathematical value of a `SignalError`.
pub enum ErrorView {
    Morse(MorseErrorView),
    RtsmDecode(i128),
    Cancelled,
    Disconnected,
    Custom(Seq<char>),
}

impl View for MorseDecodeError {
    type V = MorseErrorView;

    open spec fn view(&self) -> MorseErrorView {
        match self {
            MorseDecodeError::Signal { signal } => MorseErrorView::Signal(signal@),
            MorseDecodeError::Letter { code_points } => MorseErrorView::Letter(code_points@),
        }
    }
}

impl View for SignalError {
    type V = ErrorView;

    open spec fn view(&self) -> ErrorView {
        match self {
            SignalError::Morse(e) => ErrorView::Morse(e@),
            SignalError::RtsmDecode(v) => ErrorView::RtsmDecode(*v),
            SignalError::Cancelled => ErrorView::Cancelled,
            SignalError::Disconnected => ErrorView::Disconnected,
            SignalError::Custom(s) => ErrorView::Custom(s@),
        }
    }
}

/// A result with its error taken by its view.
pub open spec fn result_view<T>(r: Result<T, SignalError>) -> Result<T, ErrorView> {
    match r {
        Ok(x) => Ok(x),
        Err(e) => Err(e@),
    }
}

/// What `recv` gives back for one element of a finite stream, by view.
pub open spec fn received<T>(e: Result<T, ErrorView>) -> Result<Option<T>, ErrorView> {
    match e {
        Ok(x) => Ok(Some(x)),
        Err(err) => Err(err),
    }
}

} // verus!
