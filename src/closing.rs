//! The owning wrapper.
use vstd::prelude::*;

use crate::contract::Close;

verus! {

/// Owns one closable value until it is extracted or closed.
///
/// Extraction and closing consume the wrapper, so once the value has left it
/// no wrapper remains that could reach it, or close it a second time. The
/// close that ends a scope is [`Closing::close_held`]: a destructor holding
/// the wrapper in an `Option` calls it, and treats its `Err` as fatal.
#[derive(Debug)]
pub struct Closing<T: Close> {
    inner: T,
}

impl<T: Close> View for Closing<T> {
    type V = T;

    /// The value held.
    closed spec fn view(&self) -> T {
        self.inner
    }
}

impl<T: Close> Closing<T> {
    /// Consumes the wrapper, returning the wrapped value.
    pub fn into_inner(self) -> (r: T)
        ensures
            r == self@,
    {
        self.inner
    }

    /// The close that ends a scope: closes the wrapper in `slot` if one is
    /// still there, and leaves the slot empty.
    ///
    /// An empty slot means the value was already extracted or closed: then
    /// nothing is closed and the result is `Ok`. Since the slot is empty
    /// afterwards, a second call closes nothing either.
    pub fn close_held(slot: &mut Option<Closing<T>>) -> (r: Result<(), T::Error>)
        ensures
            *final(slot) is None,
            match *old(slot) {
                Some(w) => T::close_outcome(w@, r),
                None => r is Ok,
            },
    {
        match slot.take() {
            Some(w) => w.close(),
            None => Ok(()),
        }
    }
}

impl<T: Close> From<T> for Closing<T> {
    /// Wraps `value`.
    fn from(value: T) -> (r: Closing<T>)
        ensures
            r@ == value,
    {
        Closing { inner: value }
    }
}

impl<T: Close> vstd::std_specs::convert::FromSpecImpl<T> for Closing<T> {
    open spec fn obeys_from_spec() -> bool {
        true
    }

    closed spec fn from_spec(v: T) -> Closing<T> {
        Closing { inner: v }
    }
}

impl<T: Close> core::ops::Deref for Closing<T> {
    type Target = T;

    /// The wrapped value, by reference.
    fn deref(&self) -> (r: &T)
        ensures
            *r == self@,
    {
        &self.inner
    }
}

impl<T: Close> core::ops::DerefMut for Closing<T> {
    /// The wrapped value, by mutable reference.
    fn deref_mut(&mut self) -> (r: &mut T)
        ensures
            *r == old(self)@,
            final(self)@ == *final(r),
    {
        &mut self.inner
    }
}

impl<T: Close> Close for Closing<T> {
    type Error = T::Error;

    open spec fn close_outcome(self, r: Result<(), T::Error>) -> bool {
        T::close_outcome(self@, r)
    }

    /// Extracts the value and closes it.
    fn close(self) -> (r: Result<(), T::Error>) {
        self.into_inner().close()
    }
}

/// Wrapping a value and extracting it at once gives back that very value.
pub proof fn lemma_wrap_then_extract<T: Close>(v: T, w: Closing<T>, e: T)
    requires
        call_ensures(Closing::<T>::from, (v,), w),
        call_ensures(Closing::<T>::into_inner, (w,), e),
    ensures
        e == v,
{
}

/// Reading the wrapped value through a reference shows the value that
/// extraction would give.
pub proof fn lemma_access_matches_extract<T: Close>(w: Closing<T>, d: &T, e: T)
    requires
        call_ensures(<Closing<T> as core::ops::Deref>::deref, (&w,), d),
        call_ensures(Closing::<T>::into_inner, (w,), e),
    ensures
        *d == e,
{
}

} // verus!
