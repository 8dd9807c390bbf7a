//! The data formats of the Windows performance library.
pub mod consume;
pub mod display;
pub mod nom;
pub mod provide;
pub mod raw;
pub mod roundtrip;
pub mod types;
pub mod useful;
pub mod values;
