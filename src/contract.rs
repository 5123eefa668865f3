//! The closing contract.
use vstd::prelude::*;

verus! {

/// A value whose teardown takes ownership of it and may fail.
///
/// `close` consumes the value, so a value can be closed at most once; a
/// failure is handed to the caller as `Err`, never retried. A panic inside an
/// implementation's `close` is no failure report: it unwinds through the
/// caller as any panic does, and the wrappers of this crate do not catch it.
pub trait Close: Sized {
    /// What a failed close reports.
    type Error: core::fmt::Debug;

    /// Holds when `r` is an outcome that closing `self` may have.
    ///
    /// Closing usually acts on the world (it flushes, joins, syncs), so the
    /// outcome need not be a function of the value: this names the set of
    /// possible outcomes, and `close` returns one of them. A type that says
    /// nothing here admits every outcome.
    open spec fn close_outcome(self, r: Result<(), Self::Error>) -> bool {
        true
    }

    /// Tears the value down, reporting a failure as `Err`.
    fn close(self) -> (r: Result<(), Self::Error>)
        ensures
            Self::close_outcome(self, r),
    ;
}

} // verus!
