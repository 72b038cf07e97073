use vstd::prelude::*;

verus! {

/// A value that is either owned or borrowed mutably.
#[derive(Debug)]
pub enum OwnedOrMut<'a, T> {
    /// An owned value.
    Owned(T),
    /// A mutable reference.
    Borrowed(&'a mut T),
}

impl<'a, T> OwnedOrMut<'a, T> {
    /// The value, owned or behind the reference.
    pub open spec fn value(&self) -> T {
        match self {
            OwnedOrMut::Owned(m) => *m,
            OwnedOrMut::Borrowed(m) => **m,
        }
    }

    /// Read access to the value.
    pub fn as_ref(&self) -> (r: &T)
        ensures
            *r == self.value(),
    {
        match self {
            OwnedOrMut::Owned(m) => m,
            OwnedOrMut::Borrowed(m) => m,
        }
    }

    /// Write access to the value.
    pub fn as_mut(&mut self) -> (r: &mut T)
        ensures
            *r == old(self).value(),
            final(self).value() == *final(r),
    {
        match self {
            OwnedOrMut::Owned(m) => m,
            OwnedOrMut::Borrowed(m) => m,
        }
    }
}

impl<'a, T> From<T> for OwnedOrMut<'a, T> {
    fn from(t: T) -> (r: Self) {
        OwnedOrMut::Owned(t)
    }
}

impl<'a, T> vstd::std_specs::convert::FromSpecImpl<T> for OwnedOrMut<'a, T> {
    open spec fn obeys_from_spec() -> bool {
        true
    }

    open spec fn from_spec(t: T) -> Self {
        OwnedOrMut::Owned(t)
    }
}

impl<'a, T: Default> Default for OwnedOrMut<'a, T> {
    fn default() -> (r: Self)
        ensures
            r is Owned,
    {
        OwnedOrMut::Owned(T::default())
    }
}

} // verus!
