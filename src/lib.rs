//! Fallible, ownership-taking teardown.
//!
//! [`Close`] is the contract of a type whose destruction takes ownership of
//! the value and may fail; [`Closing`] owns one such value and hands it out,
//! or closes it, exactly once.
pub mod aggregate;
pub mod closing;
pub mod contract;

pub use closing::Closing;
pub use contract::Close;
