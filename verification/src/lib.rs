//! Morse code over Windows performance counters: signal pipelines, the
//! Morse and RTSM codecs, and the data formats of the performance library.
pub mod ascii;
pub mod error;
pub mod format;
pub mod interval;
pub mod monitor;
pub mod morse;
pub mod morse_counters;
pub mod morse_roundtrip;
pub mod pair;
pub mod perf;
pub mod reg;
pub mod rtsm;
pub mod rtsm_proto;
pub mod rx;
pub mod signal_error;
pub mod tx;
pub mod winnt;
