//! A byte count, kept apart from other integers by its type.

use vstd::prelude::*;

verus! {

/// A number of bytes.
///
/// Values are built from literals through [`NumBytesExt`], as in `16.kilobytes()`.
#[derive(Debug, Clone, Copy, PartialEq, Eq, PartialOrd, Ord, Structural)]
pub struct NumBytes(pub(crate) usize);

impl View for NumBytes {
    type V = nat;

    closed spec fn view(&self) -> nat {
        self.0 as nat
    }
}

impl NumBytes {
    /// The largest byte count that can be expressed.
    ///
    /// Use this where a limit is required but none is wanted.
    #[must_use]
    pub fn max_value() -> (r: Self)
        ensures
            r@ == usize::MAX,
    {
        Self(usize::MAX)
    }

    /// Creates a value of zero bytes.
    #[must_use]
    pub fn zero() -> (r: Self)
        ensures
            r@ == 0,
    {
        Self(0)
    }

    /// The amount of bytes represented by this instance.
    #[must_use]
    pub fn bytes(&self) -> (r: usize)
        ensures
            r == self@,
    {
        self.0
    }
}

/// Extension trait providing convenience functions for creation of [`NumBytes`] of certain sizes.
pub trait NumBytesExt: Sized {
    /// The plain number behind the value.
    spec fn amount(&self) -> nat;

    /// Interprets the value as literal bytes.
    fn bytes(self) -> (r: NumBytes)
        ensures
            r@ == self.amount(),
    ;

    /// Interprets the value as kilobytes (value * 1024).
    fn kilobytes(self) -> (r: NumBytes)
        requires
            self.amount() * 1024 <= usize::MAX,
        ensures
            r@ == self.amount() * 1024,
    ;

    /// Interprets the value as megabytes (value * 1024 * 1024).
    fn megabytes(self) -> (r: NumBytes)
        requires
            self.amount() * 1024 * 1024 <= usize::MAX,
        ensures
            r@ == self.amount() * 1024 * 1024,
    ;
}

impl NumBytesExt for usize {
    open spec fn amount(&self) -> nat {
        *self as nat
    }

    fn bytes(self) -> (r: NumBytes) {
        NumBytes(self)
    }

    fn kilobytes(self) -> (r: NumBytes) {
        NumBytes(self * 1024)
    }

    fn megabytes(self) -> (r: NumBytes) {
        NumBytes(self * 1024 * 1024)
    }
}

} // verus!
