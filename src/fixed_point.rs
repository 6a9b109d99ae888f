//! Fixed-point numbers with 8 bits after the point.
use vstd::prelude::*;

verus! {

/// Number of bits after the point.
pub const AFTER_POINT_BITS: i32 = 8;

/// A number stored as its value times 256.
#[derive(Clone, Copy, Debug)]
pub struct FixedPoint(i32);

impl FixedPoint {
    /// The stored integer: the value times 256.
    pub closed spec fn raw_spec(&self) -> int {
        self.0 as int
    }

    /// The integer `value`, where `value * 256` fits in `i32`.
    pub fn from_integer(value: i32) -> (r: Self)
        requires
            i32::MIN <= value * 256 <= i32::MAX,
        ensures
            r.raw_spec() == value * 256,
    {
        FixedPoint(value * 256)
    }

    pub fn raw(&self) -> (r: i32)
        ensures
            r == self.raw_spec(),
    {
        self.0
    }

    pub fn add(self, another: Self) -> (r: Self)
        requires
            i32::MIN <= self.raw_spec() + another.raw_spec() <= i32::MAX,
        ensures
            r.raw_spec() == self.raw_spec() + another.raw_spec(),
    {
        FixedPoint(self.0 + another.0)
    }

    pub fn neg(self) -> (r: Self)
        requires
            self.raw_spec() > i32::MIN,
        ensures
            r.raw_spec() == -self.raw_spec(),
    {
        FixedPoint(-self.0)
    }

    pub fn sub(self, another: Self) -> (r: Self)
        requires
            another.raw_spec() > i32::MIN,
            i32::MIN <= self.raw_spec() - another.raw_spec() <= i32::MAX,
        ensures
            r.raw_spec() == self.raw_spec() - another.raw_spec(),
    {
        self.add(another.neg())
    }
}

} // verus!
