//! Small helpers: values that are either owned or borrowed, and leaking a
//! value to give it a static lifetime.
use vstd::prelude::*;

verus! {

/// A value that is either held or borrowed.
pub enum MaybeOwned<'a, T> {
    Owned(T),
    Borrowed(&'a T),
}

/// A value that is either held or borrowed.
pub enum Ref<'a, T> {
    Owned(T),
    Borrowed(&'a T),
}

impl<'a, T> Ref<'a, T> {
    /// The value, whichever way it is held.
    pub open spec fn value(&self) -> T {
        match self {
            Ref::Owned(x) => *x,
            Ref::Borrowed(x) => **x,
        }
    }

    pub fn get_ref(&self) -> (r: &T)
        ensures
            *r == self.value(),
    {
        match self {
            Ref::Owned(x) => x,
            Ref::Borrowed(x) => x,
        }
    }
}

impl<'a, T> MaybeOwned<'a, T> {
    /// The value, whichever way it is held.
    pub open spec fn value(&self) -> T {
        match self {
            MaybeOwned::Owned(x) => *x,
            MaybeOwned::Borrowed(x) => **x,
        }
    }

    pub fn get_ref(&self) -> (r: &T)
        ensures
            *r == self.value(),
    {
        match self {
            MaybeOwned::Owned(x) => x,
            MaybeOwned::Borrowed(x) => x,
        }
    }
}

/// Leaks `src` and gives a mutable reference to it that lives for as long
/// as the program.
#[verifier::external_body]
pub fn mut_leak<'a, T: 'a>(src: T) -> (r: &'a mut T)
    ensures
        *r == src,
{
    Box::leak(Box::new(src))
}

/// Leaks `src` and gives a reference to it that lives for as long as the
/// program.
pub fn immut_leak<'a, T: 'a>(src: T) -> (r: &'a T)
    ensures
        *r == src,
{
    mut_leak(src)
}

} // verus!
