//! The scalars in which time is measured.

use vstd::prelude::*;

verus! {

/// An ordered scalar that measures time: a point on the time axis, or a length along it.
///
/// Scalars are counted from zero upwards, so that no length of time is below zero, and the length
/// between two of them, the later minus the earlier, is again a scalar. The unsigned integers are
/// the scalars this crate provides.
pub trait Scalar: Copy {
    /// The number that the scalar stands for.
    spec fn value(self) -> nat;

    /// The scalar that stands for zero: no time at all.
    fn zero() -> (nothing: Self)
        ensures
            nothing.value() == 0,
    ;

    /// Whether `self` lies strictly before `other`.
    fn precedes(self, other: Self) -> (before: bool)
        ensures
            before == (self.value() < other.value()),
    ;

    /// The length of time from `earlier` to `self`.
    fn since(self, earlier: Self) -> (length: Self)
        requires
            earlier.value() <= self.value(),
        ensures
            length.value() == self.value() - earlier.value(),
    ;
}

impl Scalar for u8 {
    open spec fn value(self) -> nat {
        self as nat
    }

    fn zero() -> Self {
        0
    }

    fn precedes(self, other: Self) -> bool {
        self < other
    }

    fn since(self, earlier: Self) -> Self {
        self - earlier
    }
}

impl Scalar for u16 {
    open spec fn value(self) -> nat {
        self as nat
    }

    fn zero() -> Self {
        0
    }

    fn precedes(self, other: Self) -> bool {
        self < other
    }

    fn since(self, earlier: Self) -> Self {
        self - earlier
    }
}

impl Scalar for u32 {
    open spec fn value(self) -> nat {
        self as nat
    }

    fn zero() -> Self {
        0
    }

    fn precedes(self, other: Self) -> bool {
        self < other
    }

    fn since(self, earlier: Self) -> Self {
        self - earlier
    }
}

impl Scalar for u64 {
    open spec fn value(self) -> nat {
        self as nat
    }

    fn zero() -> Self {
        0
    }

    fn precedes(self, other: Self) -> bool {
        self < other
    }

    fn since(self, earlier: Self) -> Self {
        self - earlier
    }
}

impl Scalar for u128 {
    open spec fn value(self) -> nat {
        self as nat
    }

    fn zero() -> Self {
        0
    }

    fn precedes(self, other: Self) -> bool {
        self < other
    }

    fn since(self, earlier: Self) -> Self {
        self - earlier
    }
}

impl Scalar for usize {
    open spec fn value(self) -> nat {
        self as nat
    }

    fn zero() -> Self {
        0
    }

    fn precedes(self, other: Self) -> bool {
        self < other
    }

    fn since(self, earlier: Self) -> Self {
        self - earlier
    }
}

} // verus!
