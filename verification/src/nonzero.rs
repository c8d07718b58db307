//! Integers that are known not to be zero.

use vstd::prelude::*;

verus! {

/// A `usize` other than zero.
#[derive(Clone, Copy, Debug, PartialEq, Eq, Hash, Structural)]
pub struct NonZeroUsize {
    value: usize,
}

impl NonZeroUsize {
    /// The integer itself.
    pub closed spec fn value(self) -> usize {
        self.value
    }

    #[verifier::type_invariant]
    spec fn nonzero(self) -> bool {
        self.value != 0
    }

    /// Wraps `value`, or returns `None` where it is zero.
    pub fn new(value: usize) -> (r: Option<NonZeroUsize>)
        ensures
            r is Some <==> value != 0,
            r matches Some(n) ==> n.value() == value,
    {
        if value == 0 {
            None
        } else {
            Some(NonZeroUsize { value })
        }
    }

    /// Returns the integer.
    pub fn get(self) -> (r: usize)
        ensures
            r == self.value(),
            r != 0,
    {
        proof {
            use_type_invariant(self);
        }
        self.value
    }
}

/// A `u8` other than zero.
#[derive(Clone, Copy, Debug, PartialEq, Eq, Hash, Structural)]
pub struct NonZeroU8 {
    value: u8,
}

impl NonZeroU8 {
    /// The integer itself.
    pub closed spec fn value(self) -> u8 {
        self.value
    }

    #[verifier::type_invariant]
    spec fn nonzero(self) -> bool {
        self.value != 0
    }

    /// Wraps `value`, or returns `None` where it is zero.
    pub fn new(value: u8) -> (r: Option<NonZeroU8>)
        ensures
            r is Some <==> value != 0,
            r matches Some(n) ==> n.value() == value,
    {
        if value == 0 {
            None
        } else {
            Some(NonZeroU8 { value })
        }
    }

    /// Returns the integer.
    pub fn get(self) -> (r: u8)
        ensures
            r == self.value(),
            r != 0,
    {
        proof {
            use_type_invariant(self);
        }
        self.value
    }
}

/// Two non-zero integers of the same value are the same.
pub proof fn lemma_nonzero_usize_ext(a: NonZeroUsize, b: NonZeroUsize)
    requires
        a.value() == b.value(),
    ensures
        a == b,
{
}

/// Two non-zero bytes of the same value are the same.
pub proof fn lemma_nonzero_u8_ext(a: NonZeroU8, b: NonZeroU8)
    requires
        a.value() == b.value(),
    ensures
        a == b,
{
}

} // verus!
