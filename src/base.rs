use vstd::prelude::*;
use crate::axis::Axis;
use vstd::std_specs::cmp::PartialOrdSpec;
use vstd::std_specs::ops::{AddSpec, SubSpec, MulSpec, DivSpec, NegSpec};

verus! {

/// `a < b` as the comparison of `T` defines it.
pub open spec fn lt<T: PartialOrd>(a: T, b: T) -> bool {
    a.partial_cmp_spec(&b) == Some(core::cmp::Ordering::Less)
}

/// `a > b` as the comparison of `T` defines it.
pub open spec fn gt<T: PartialOrd>(a: T, b: T) -> bool {
    a.partial_cmp_spec(&b) == Some(core::cmp::Ordering::Greater)
}

/// The smaller of two values, the second one when neither is smaller.
pub open spec fn min_of<T: PartialOrd>(a: T, b: T) -> T {
    if lt(a, b) { a } else { b }
}

/// The larger of two values, the second one when neither is larger.
pub open spec fn max_of<T: PartialOrd>(a: T, b: T) -> T {
    if gt(a, b) { a } else { b }
}

/// Three values of one type, used for points, vectors and colours.
pub struct BasicThreeTuple<T> {
    pub x: T,
    pub y: T,
    pub z: T,
}

impl<T: Copy> Clone for BasicThreeTuple<T> {
    fn clone(&self) -> (r: BasicThreeTuple<T>)
        ensures
            r == *self,
    {
        *self
    }
}

impl<T: Copy> Copy for BasicThreeTuple<T> {}

impl<T: PartialOrd + Copy> BasicThreeTuple<T> {
    pub fn new(x: T, y: T, z: T) -> (r: BasicThreeTuple<T>)
        ensures
            r == (BasicThreeTuple { x, y, z }),
    {
        BasicThreeTuple { x: x, y: y, z: z }
    }

    /// The component-wise minimum.
    pub fn min(v1: BasicThreeTuple<T>, v2: BasicThreeTuple<T>) -> (r: BasicThreeTuple<T>)
        ensures
            T::obeys_partial_cmp_spec() ==> r == BasicThreeTuple::spec_min(v1, v2),
    {
        BasicThreeTuple {
            x: if v1.x < v2.x { v1.x } else { v2.x },
            y: if v1.y < v2.y { v1.y } else { v2.y },
            z: if v1.z < v2.z { v1.z } else { v2.z },
        }
    }

    /// The component-wise maximum.
    pub fn max(v1: BasicThreeTuple<T>, v2: BasicThreeTuple<T>) -> (r: BasicThreeTuple<T>)
        ensures
            T::obeys_partial_cmp_spec() ==> r == BasicThreeTuple::spec_max(v1, v2),
    {
        BasicThreeTuple {
            x: if v1.x > v2.x { v1.x } else { v2.x },
            y: if v1.y > v2.y { v1.y } else { v2.y },
            z: if v1.z > v2.z { v1.z } else { v2.z },
        }
    }

    /// The component along `axis`.
    pub fn get(&self, axis: Axis) -> (r: T)
        ensures
            r == self.spec_get(axis),
    {
        match axis {
            Axis::X => self.x,
            Axis::Y => self.y,
            Axis::Z => self.z,
        }
    }
}

impl<T: PartialOrd> BasicThreeTuple<T> {
    pub open spec fn spec_min(v1: Self, v2: Self) -> Self {
        BasicThreeTuple {
            x: min_of(v1.x, v2.x),
            y: min_of(v1.y, v2.y),
            z: min_of(v1.z, v2.z),
        }
    }

    pub open spec fn spec_max(v1: Self, v2: Self) -> Self {
        BasicThreeTuple {
            x: max_of(v1.x, v2.x),
            y: max_of(v1.y, v2.y),
            z: max_of(v1.z, v2.z),
        }
    }

    pub open spec fn spec_get(self, axis: Axis) -> T {
        match axis {
            Axis::X => self.x,
            Axis::Y => self.y,
            Axis::Z => self.z,
        }
    }
}

impl<T: core::ops::Add<Output = T>> core::ops::Add for BasicThreeTuple<T> {
    type Output = BasicThreeTuple<T>;

    fn add(self, rhs: BasicThreeTuple<T>) -> BasicThreeTuple<T> {
        BasicThreeTuple { x: self.x + rhs.x, y: self.y + rhs.y, z: self.z + rhs.z }
    }
}

impl<T: core::ops::Add<Output = T>> vstd::std_specs::ops::AddSpecImpl for BasicThreeTuple<T> {
    open spec fn obeys_add_spec() -> bool {
        T::obeys_add_spec()
    }

    open spec fn add_req(self, rhs: BasicThreeTuple<T>) -> bool {
        self.x.add_req(rhs.x) && self.y.add_req(rhs.y) && self.z.add_req(rhs.z)
    }

    open spec fn add_spec(self, rhs: BasicThreeTuple<T>) -> BasicThreeTuple<T> {
        BasicThreeTuple { x: self.x.add_spec(rhs.x), y: self.y.add_spec(rhs.y), z: self.z.add_spec(rhs.z) }
    }
}

impl<T: core::ops::Sub<Output = T>> core::ops::Sub for BasicThreeTuple<T> {
    type Output = BasicThreeTuple<T>;

    fn sub(self, rhs: BasicThreeTuple<T>) -> BasicThreeTuple<T> {
        BasicThreeTuple { x: self.x - rhs.x, y: self.y - rhs.y, z: self.z - rhs.z }
    }
}

impl<T: core::ops::Sub<Output = T>> vstd::std_specs::ops::SubSpecImpl for BasicThreeTuple<T> {
    open spec fn obeys_sub_spec() -> bool {
        T::obeys_sub_spec()
    }

    open spec fn sub_req(self, rhs: BasicThreeTuple<T>) -> bool {
        self.x.sub_req(rhs.x) && self.y.sub_req(rhs.y) && self.z.sub_req(rhs.z)
    }

    open spec fn sub_spec(self, rhs: BasicThreeTuple<T>) -> BasicThreeTuple<T> {
        BasicThreeTuple { x: self.x.sub_spec(rhs.x), y: self.y.sub_spec(rhs.y), z: self.z.sub_spec(rhs.z) }
    }
}

impl<T: core::ops::Mul<Output = T>> core::ops::Mul for BasicThreeTuple<T> {
    type Output = BasicThreeTuple<T>;

    fn mul(self, rhs: BasicThreeTuple<T>) -> BasicThreeTuple<T> {
        BasicThreeTuple { x: self.x * rhs.x, y: self.y * rhs.y, z: self.z * rhs.z }
    }
}

impl<T: core::ops::Mul<Output = T>> vstd::std_specs::ops::MulSpecImpl for BasicThreeTuple<T> {
    open spec fn obeys_mul_spec() -> bool {
        T::obeys_mul_spec()
    }

    open spec fn mul_req(self, rhs: BasicThreeTuple<T>) -> bool {
        self.x.mul_req(rhs.x) && self.y.mul_req(rhs.y) && self.z.mul_req(rhs.z)
    }

    open spec fn mul_spec(self, rhs: BasicThreeTuple<T>) -> BasicThreeTuple<T> {
        BasicThreeTuple { x: self.x.mul_spec(rhs.x), y: self.y.mul_spec(rhs.y), z: self.z.mul_spec(rhs.z) }
    }
}

impl<T: Copy + core::ops::Mul<Output = T>> core::ops::Mul<T> for BasicThreeTuple<T> {
    type Output = BasicThreeTuple<T>;

    fn mul(self, rhs: T) -> BasicThreeTuple<T> {
        BasicThreeTuple { x: self.x * rhs, y: self.y * rhs, z: self.z * rhs }
    }
}

impl<T: Copy + core::ops::Mul<Output = T>> vstd::std_specs::ops::MulSpecImpl<T> for BasicThreeTuple<T> {
    open spec fn obeys_mul_spec() -> bool {
        T::obeys_mul_spec()
    }

    open spec fn mul_req(self, rhs: T) -> bool {
        self.x.mul_req(rhs) && self.y.mul_req(rhs) && self.z.mul_req(rhs)
    }

    open spec fn mul_spec(self, rhs: T) -> BasicThreeTuple<T> {
        BasicThreeTuple { x: self.x.mul_spec(rhs), y: self.y.mul_spec(rhs), z: self.z.mul_spec(rhs) }
    }
}

impl<T: Copy + core::ops::Div<Output = T>> core::ops::Div<T> for BasicThreeTuple<T> {
    type Output = BasicThreeTuple<T>;

    fn div(self, rhs: T) -> BasicThreeTuple<T> {
        BasicThreeTuple { x: self.x / rhs, y: self.y / rhs, z: self.z / rhs }
    }
}

impl<T: Copy + core::ops::Div<Output = T>> vstd::std_specs::ops::DivSpecImpl<T> for BasicThreeTuple<T> {
    open spec fn obeys_div_spec() -> bool {
        T::obeys_div_spec()
    }

    open spec fn div_req(self, rhs: T) -> bool {
        self.x.div_req(rhs) && self.y.div_req(rhs) && self.z.div_req(rhs)
    }

    open spec fn div_spec(self, rhs: T) -> BasicThreeTuple<T> {
        BasicThreeTuple { x: self.x.div_spec(rhs), y: self.y.div_spec(rhs), z: self.z.div_spec(rhs) }
    }
}

impl<T: core::ops::Neg<Output = T>> core::ops::Neg for BasicThreeTuple<T> {
    type Output = BasicThreeTuple<T>;

    fn neg(self) -> BasicThreeTuple<T> {
        BasicThreeTuple { x: self.x.neg(), y: self.y.neg(), z: self.z.neg() }
    }
}

impl<T: core::ops::Neg<Output = T>> vstd::std_specs::ops::NegSpecImpl for BasicThreeTuple<T> {
    open spec fn obeys_neg_spec() -> bool {
        T::obeys_neg_spec()
    }

    open spec fn neg_req(self) -> bool {
        self.x.neg_req() && self.y.neg_req() && self.z.neg_req()
    }

    open spec fn neg_spec(self) -> BasicThreeTuple<T> {
        BasicThreeTuple { x: self.x.neg_spec(), y: self.y.neg_spec(), z: self.z.neg_spec() }
    }
}


/// Two values of one type, used for texture coordinates.
pub struct BasicTwoTuple<T> {
    pub x: T,
    pub y: T,
}

impl<T: Copy> Clone for BasicTwoTuple<T> {
    fn clone(&self) -> (r: BasicTwoTuple<T>)
        ensures
            r == *self,
    {
        *self
    }
}

impl<T: Copy> Copy for BasicTwoTuple<T> {}

impl<T: PartialOrd> BasicTwoTuple<T> {
    pub fn new(x: T, y: T) -> (r: BasicTwoTuple<T>)
        ensures
            r == (BasicTwoTuple { x, y }),
    {
        BasicTwoTuple { x: x, y: y }
    }
}

impl<T: core::ops::Add<Output = T>> core::ops::Add for BasicTwoTuple<T> {
    type Output = BasicTwoTuple<T>;

    fn add(self, rhs: BasicTwoTuple<T>) -> BasicTwoTuple<T> {
        BasicTwoTuple { x: self.x + rhs.x, y: self.y + rhs.y }
    }
}

impl<T: core::ops::Add<Output = T>> vstd::std_specs::ops::AddSpecImpl for BasicTwoTuple<T> {
    open spec fn obeys_add_spec() -> bool {
        T::obeys_add_spec()
    }

    open spec fn add_req(self, rhs: BasicTwoTuple<T>) -> bool {
        self.x.add_req(rhs.x) && self.y.add_req(rhs.y)
    }

    open spec fn add_spec(self, rhs: BasicTwoTuple<T>) -> BasicTwoTuple<T> {
        BasicTwoTuple { x: self.x.add_spec(rhs.x), y: self.y.add_spec(rhs.y) }
    }
}

impl<T: core::ops::Sub<Output = T>> core::ops::Sub for BasicTwoTuple<T> {
    type Output = BasicTwoTuple<T>;

    fn sub(self, rhs: BasicTwoTuple<T>) -> BasicTwoTuple<T> {
        BasicTwoTuple { x: self.x - rhs.x, y: self.y - rhs.y }
    }
}

impl<T: core::ops::Sub<Output = T>> vstd::std_specs::ops::SubSpecImpl for BasicTwoTuple<T> {
    open spec fn obeys_sub_spec() -> bool {
        T::obeys_sub_spec()
    }

    open spec fn sub_req(self, rhs: BasicTwoTuple<T>) -> bool {
        self.x.sub_req(rhs.x) && self.y.sub_req(rhs.y)
    }

    open spec fn sub_spec(self, rhs: BasicTwoTuple<T>) -> BasicTwoTuple<T> {
        BasicTwoTuple { x: self.x.sub_spec(rhs.x), y: self.y.sub_spec(rhs.y) }
    }
}

impl<T: core::ops::Mul<Output = T>> core::ops::Mul for BasicTwoTuple<T> {
    type Output = BasicTwoTuple<T>;

    fn mul(self, rhs: BasicTwoTuple<T>) -> BasicTwoTuple<T> {
        BasicTwoTuple { x: self.x * rhs.x, y: self.y * rhs.y }
    }
}

impl<T: core::ops::Mul<Output = T>> vstd::std_specs::ops::MulSpecImpl for BasicTwoTuple<T> {
    open spec fn obeys_mul_spec() -> bool {
        T::obeys_mul_spec()
    }

    open spec fn mul_req(self, rhs: BasicTwoTuple<T>) -> bool {
        self.x.mul_req(rhs.x) && self.y.mul_req(rhs.y)
    }

    open spec fn mul_spec(self, rhs: BasicTwoTuple<T>) -> BasicTwoTuple<T> {
        BasicTwoTuple { x: self.x.mul_spec(rhs.x), y: self.y.mul_spec(rhs.y) }
    }
}

impl<T: Copy + core::ops::Mul<Output = T>> core::ops::Mul<T> for BasicTwoTuple<T> {
    type Output = BasicTwoTuple<T>;

    fn mul(self, rhs: T) -> BasicTwoTuple<T> {
        BasicTwoTuple { x: self.x * rhs, y: self.y * rhs }
    }
}

impl<T: Copy + core::ops::Mul<Output = T>> vstd::std_specs::ops::MulSpecImpl<T> for BasicTwoTuple<T> {
    open spec fn obeys_mul_spec() -> bool {
        T::obeys_mul_spec()
    }

    open spec fn mul_req(self, rhs: T) -> bool {
        self.x.mul_req(rhs) && self.y.mul_req(rhs)
    }

    open spec fn mul_spec(self, rhs: T) -> BasicTwoTuple<T> {
        BasicTwoTuple { x: self.x.mul_spec(rhs), y: self.y.mul_spec(rhs) }
    }
}

impl<T: Copy + core::ops::Div<Output = T>> core::ops::Div<T> for BasicTwoTuple<T> {
    type Output = BasicTwoTuple<T>;

    fn div(self, rhs: T) -> BasicTwoTuple<T> {
        BasicTwoTuple { x: self.x / rhs, y: self.y / rhs }
    }
}

impl<T: Copy + core::ops::Div<Output = T>> vstd::std_specs::ops::DivSpecImpl<T> for BasicTwoTuple<T> {
    open spec fn obeys_div_spec() -> bool {
        T::obeys_div_spec()
    }

    open spec fn div_req(self, rhs: T) -> bool {
        self.x.div_req(rhs) && self.y.div_req(rhs)
    }

    open spec fn div_spec(self, rhs: T) -> BasicTwoTuple<T> {
        BasicTwoTuple { x: self.x.div_spec(rhs), y: self.y.div_spec(rhs) }
    }
}

impl<T: core::ops::Neg<Output = T>> core::ops::Neg for BasicTwoTuple<T> {
    type Output = BasicTwoTuple<T>;

    fn neg(self) -> BasicTwoTuple<T> {
        BasicTwoTuple { x: self.x.neg(), y: self.y.neg() }
    }
}

impl<T: core::ops::Neg<Output = T>> vstd::std_specs::ops::NegSpecImpl for BasicTwoTuple<T> {
    open spec fn obeys_neg_spec() -> bool {
        T::obeys_neg_spec()
    }

    open spec fn neg_req(self) -> bool {
        self.x.neg_req() && self.y.neg_req()
    }

    open spec fn neg_spec(self) -> BasicTwoTuple<T> {
        BasicTwoTuple { x: self.x.neg_spec(), y: self.y.neg_spec() }
    }
}


} // verus!
