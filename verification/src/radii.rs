//! A pair of radii, one per axis, with component-wise arithmetic.

use vstd::prelude::*;

use core::ops::{Add, Div, Mul, Sub};
use vstd::std_specs::ops::{
    AddSpec, AddSpecImpl, DivSpec, DivSpecImpl, MulSpec, MulSpecImpl, SubSpec, SubSpecImpl,
};

verus! {

/// A radius that covers both the x and y axes.
#[derive(Debug, Clone, Copy, PartialEq, Eq, PartialOrd, Ord)]
pub struct Radii<T> {
    /// The radius on the x-axis
    pub x: T,
    /// The radius on the y-axis
    pub y: T,
}

impl<T> Radii<T> {
    /// Creates a new radii from its x and y components.
    pub fn new(x: T, y: T) -> (r: Self)
        ensures
            r.x == x,
            r.y == y,
    {
        Radii { x, y }
    }

    /// Creates a new *uniform* radii: the same radius on both axes.
    pub fn uniform(radius: T) -> (r: Self) where T: Copy
        ensures
            r.x == radius,
            r.y == radius,
    {
        Radii { x: radius, y: radius }
    }
}

// ---------------------------------------------------------------------------
// Multiplication: `radii * scalar` and `radii * radii`
// ---------------------------------------------------------------------------

impl<T: Mul<Output = T> + Copy> Mul<T> for Radii<T> {
    type Output = Self;

    fn mul(self, rhs: T) -> Self::Output {
        Radii { x: self.x * rhs, y: self.y * rhs }
    }
}

impl<T: Mul<Output = T> + Copy> MulSpecImpl<T> for Radii<T> {
    open spec fn obeys_mul_spec() -> bool {
        T::obeys_mul_spec()
    }

    open spec fn mul_req(self, rhs: T) -> bool {
        self.x.mul_req(rhs) && self.y.mul_req(rhs)
    }

    open spec fn mul_spec(self, rhs: T) -> Self {
        Radii { x: self.x.mul_spec(rhs), y: self.y.mul_spec(rhs) }
    }
}

impl<T: Mul<Output = T>> Mul<Radii<T>> for Radii<T> {
    type Output = Self;

    fn mul(self, rhs: Self) -> Self::Output {
        Radii { x: self.x * rhs.x, y: self.y * rhs.y }
    }
}

impl<T: Mul<Output = T>> MulSpecImpl<Radii<T>> for Radii<T> {
    open spec fn obeys_mul_spec() -> bool {
        T::obeys_mul_spec()
    }

    open spec fn mul_req(self, rhs: Self) -> bool {
        self.x.mul_req(rhs.x) && self.y.mul_req(rhs.y)
    }

    open spec fn mul_spec(self, rhs: Self) -> Self {
        Radii { x: self.x.mul_spec(rhs.x), y: self.y.mul_spec(rhs.y) }
    }
}


// ---------------------------------------------------------------------------
// Division: `radii / scalar` and `radii / radii`
// ---------------------------------------------------------------------------

impl<T: Div<Output = T> + Copy> Div<T> for Radii<T> {
    type Output = Self;

    fn div(self, rhs: T) -> Self::Output {
        Radii { x: self.x / rhs, y: self.y / rhs }
    }
}

impl<T: Div<Output = T> + Copy> DivSpecImpl<T> for Radii<T> {
    open spec fn obeys_div_spec() -> bool {
        T::obeys_div_spec()
    }

    open spec fn div_req(self, rhs: T) -> bool {
        self.x.div_req(rhs) && self.y.div_req(rhs)
    }

    open spec fn div_spec(self, rhs: T) -> Self {
        Radii { x: self.x.div_spec(rhs), y: self.y.div_spec(rhs) }
    }
}

impl<T: Div<Output = T>> Div<Radii<T>> for Radii<T> {
    type Output = Self;

    fn div(self, rhs: Self) -> Self::Output {
        Radii { x: self.x / rhs.x, y: self.y / rhs.y }
    }
}

impl<T: Div<Output = T>> DivSpecImpl<Radii<T>> for Radii<T> {
    open spec fn obeys_div_spec() -> bool {
        T::obeys_div_spec()
    }

    open spec fn div_req(self, rhs: Self) -> bool {
        self.x.div_req(rhs.x) && self.y.div_req(rhs.y)
    }

    open spec fn div_spec(self, rhs: Self) -> Self {
        Radii { x: self.x.div_spec(rhs.x), y: self.y.div_spec(rhs.y) }
    }
}

// ---------------------------------------------------------------------------
// Addition: `radii + scalar` and `radii + radii`
// ---------------------------------------------------------------------------

impl<T: Add<Output = T> + Copy> Add<T> for Radii<T> {
    type Output = Self;

    fn add(self, rhs: T) -> Self::Output {
        Radii { x: self.x + rhs, y: self.y + rhs }
    }
}

impl<T: Add<Output = T> + Copy> AddSpecImpl<T> for Radii<T> {
    open spec fn obeys_add_spec() -> bool {
        T::obeys_add_spec()
    }

    open spec fn add_req(self, rhs: T) -> bool {
        self.x.add_req(rhs) && self.y.add_req(rhs)
    }

    open spec fn add_spec(self, rhs: T) -> Self {
        Radii { x: self.x.add_spec(rhs), y: self.y.add_spec(rhs) }
    }
}

impl<T: Add<Output = T>> Add<Radii<T>> for Radii<T> {
    type Output = Self;

    fn add(self, rhs: Self) -> Self::Output {
        Radii { x: self.x + rhs.x, y: self.y + rhs.y }
    }
}

impl<T: Add<Output = T>> AddSpecImpl<Radii<T>> for Radii<T> {
    open spec fn obeys_add_spec() -> bool {
        T::obeys_add_spec()
    }

    open spec fn add_req(self, rhs: Self) -> bool {
        self.x.add_req(rhs.x) && self.y.add_req(rhs.y)
    }

    open spec fn add_spec(self, rhs: Self) -> Self {
        Radii { x: self.x.add_spec(rhs.x), y: self.y.add_spec(rhs.y) }
    }
}

// ---------------------------------------------------------------------------
// Subtraction: `radii - scalar` and `radii - radii`
// ---------------------------------------------------------------------------

impl<T: Sub<Output = T> + Copy> Sub<T> for Radii<T> {
    type Output = Self;

    fn sub(self, rhs: T) -> Self::Output {
        Radii { x: self.x - rhs, y: self.y - rhs }
    }
}

impl<T: Sub<Output = T> + Copy> SubSpecImpl<T> for Radii<T> {
    open spec fn obeys_sub_spec() -> bool {
        T::obeys_sub_spec()
    }

    open spec fn sub_req(self, rhs: T) -> bool {
        self.x.sub_req(rhs) && self.y.sub_req(rhs)
    }

    open spec fn sub_spec(self, rhs: T) -> Self {
        Radii { x: self.x.sub_spec(rhs), y: self.y.sub_spec(rhs) }
    }
}

impl<T: Sub<Output = T>> Sub<Radii<T>> for Radii<T> {
    type Output = Self;

    fn sub(self, rhs: Self) -> Self::Output {
        Radii { x: self.x - rhs.x, y: self.y - rhs.y }
    }
}

impl<T: Sub<Output = T>> SubSpecImpl<Radii<T>> for Radii<T> {
    open spec fn obeys_sub_spec() -> bool {
        T::obeys_sub_spec()
    }

    open spec fn sub_req(self, rhs: Self) -> bool {
        self.x.sub_req(rhs.x) && self.y.sub_req(rhs.y)
    }

    open spec fn sub_spec(self, rhs: Self) -> Self {
        Radii { x: self.x.sub_spec(rhs.x), y: self.y.sub_spec(rhs.y) }
    }
}

} // verus!
