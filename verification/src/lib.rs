//! For when a regular `Wrapper<T>(T)` gets too boring: a wrapper that hands
//! out its value only some of the time.
//!
//! A chance is passed and kept as the bit pattern of a double, the form in
//! which its validity and every trial are decided exactly.

pub mod binary64;
pub mod error;
pub mod trial;
pub mod wrapper;

pub use error::InvalidChance;
pub use wrapper::ChanceTheWrapper;
