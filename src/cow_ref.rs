//! A value that is either borrowed or owned.
use vstd::prelude::*;

verus! {

/// Either a shared borrow of a `T` or a `T` of its own.
pub enum CowRef<'a, T> {
    /// A value borrowed from elsewhere.
    Borrowed(&'a T),
    /// A value owned here.
    Owned(T),
}

impl<'a, T> CowRef<'a, T> {
    /// The value held, however it is held.
    pub open spec fn value(&self) -> T {
        match self {
            CowRef::Borrowed(b) => **b,
            CowRef::Owned(o) => *o,
        }
    }

    /// Returns a reference to the value held.
    pub fn as_ref(&self) -> (r: &T)
        ensures
            *r == self.value(),
    {
        match self {
            CowRef::Borrowed(b) => b,
            CowRef::Owned(o) => o,
        }
    }
}

impl<'a, T> From<T> for CowRef<'a, T> {
    fn from(t: T) -> (r: CowRef<'a, T>)
        ensures
            r == CowRef::<'a, T>::Owned(t),
    {
        CowRef::Owned(t)
    }
}

impl<'a, T> vstd::std_specs::convert::FromSpecImpl<T> for CowRef<'a, T> {
    open spec fn obeys_from_spec() -> bool {
        true
    }

    open spec fn from_spec(t: T) -> CowRef<'a, T> {
        CowRef::Owned(t)
    }
}

impl<'a, T> From<&'a T> for CowRef<'a, T> {
    fn from(t: &'a T) -> (r: CowRef<'a, T>)
        ensures
            r == CowRef::<'a, T>::Borrowed(t),
    {
        CowRef::Borrowed(t)
    }
}

impl<'a, T> vstd::std_specs::convert::FromSpecImpl<&'a T> for CowRef<'a, T> {
    open spec fn obeys_from_spec() -> bool {
        true
    }

    open spec fn from_spec(t: &'a T) -> CowRef<'a, T> {
        CowRef::Borrowed(t)
    }
}

} // verus!
