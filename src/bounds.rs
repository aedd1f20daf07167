use vstd::prelude::*;
use vstd::std_specs::cmp::PartialOrdSpec;
use crate::base::{BasicThreeTuple, lt, gt, min_of, max_of};

verus! {

/// The comparison of `T` is a total order: every two values compare, only
/// equal values compare equal, `<` is the converse of `>`, and `<` is
/// transitive. Integers have such an order; floating point numbers do not
/// (NaN compares with nothing).
pub open spec fn is_total_order<T: PartialOrd>() -> bool {
    &&& T::obeys_partial_cmp_spec()
    &&& forall|a: T, b: T| #[trigger] a.partial_cmp_spec(&b) is Some
    &&& forall|a: T, b: T|
        #[trigger] a.partial_cmp_spec(&b) == Some(core::cmp::Ordering::Equal) ==> a == b
    &&& forall|a: T, b: T|
        #![trigger a.partial_cmp_spec(&b), b.partial_cmp_spec(&a)]
        lt(a, b) <==> gt(b, a)
    &&& forall|a: T, b: T, c: T|
        #![trigger a.partial_cmp_spec(&b), b.partial_cmp_spec(&c)]
        lt(a, b) && lt(b, c) ==> lt(a, c)
}

/// Signed and unsigned 64-bit and 32-bit integers are totally ordered, so
/// the laws stated for such coordinate types hold of boxes over them.
pub proof fn lemma_integers_are_totally_ordered()
    ensures
        is_total_order::<i64>(),
        is_total_order::<u64>(),
        is_total_order::<i32>(),
        is_total_order::<u32>(),
{
}

/// `a <= b`: less or the same value.
pub open spec fn le<T: PartialOrd>(a: T, b: T) -> bool {
    lt(a, b) || a == b
}

/// An axis-aligned bounding box given by two opposite corners.
pub struct AABB<T> {
    pub min: BasicThreeTuple<T>,
    pub max: BasicThreeTuple<T>,
}

impl<T: Copy> Clone for AABB<T> {
    fn clone(&self) -> (r: AABB<T>)
        ensures
            r == *self,
    {
        *self
    }
}

impl<T: Copy> Copy for AABB<T> {}

impl<T: PartialOrd> AABB<T> {
    /// The smallest box that holds both boxes.
    pub open spec fn spec_union(b1: Self, b2: Self) -> Self {
        AABB {
            min: BasicThreeTuple::spec_min(b1.min, b2.min),
            max: BasicThreeTuple::spec_max(b1.max, b2.max),
        }
    }

    /// The smallest box that holds the box and the point.
    pub open spec fn spec_union_point(b: Self, p: BasicThreeTuple<T>) -> Self {
        AABB {
            min: BasicThreeTuple::spec_min(b.min, p),
            max: BasicThreeTuple::spec_max(b.max, p),
        }
    }
}

impl<T: PartialOrd> AABB<T> {
    /// Every point of `inner` lies in `outer`.
    pub open spec fn spec_contains(outer: Self, inner: Self) -> bool {
        &&& le(outer.min.x, inner.min.x)
        &&& le(outer.min.y, inner.min.y)
        &&& le(outer.min.z, inner.min.z)
        &&& le(inner.max.x, outer.max.x)
        &&& le(inner.max.y, outer.max.y)
        &&& le(inner.max.z, outer.max.z)
    }
}

impl<T: PartialOrd + Copy> AABB<T> {
    pub fn new(min: BasicThreeTuple<T>, max: BasicThreeTuple<T>) -> (r: AABB<T>)
        ensures
            r == (AABB { min, max }),
    {
        AABB { min: min, max: max }
    }

    /// The union of two boxes.
    pub fn union(box1: &AABB<T>, box2: &AABB<T>) -> (r: AABB<T>)
        ensures
            T::obeys_partial_cmp_spec() ==> r == AABB::spec_union(*box1, *box2),
    {
        AABB { min: BasicThreeTuple::min(box1.min, box2.min), max: BasicThreeTuple::max(box1.max, box2.max) }
    }

    /// The union of a box and a point.
    pub fn union_point(box1: &AABB<T>, point: &BasicThreeTuple<T>) -> (r: AABB<T>)
        ensures
            T::obeys_partial_cmp_spec() ==> r == AABB::spec_union_point(*box1, *point),
    {
        AABB { min: BasicThreeTuple::min(box1.min, *point), max: BasicThreeTuple::max(box1.max, *point) }
    }
}

proof fn lemma_min_max_scalar<T: PartialOrd>(a: T, b: T, c: T)
    requires
        is_total_order::<T>(),
    ensures
        min_of(a, a) == a,
        max_of(a, a) == a,
        min_of(a, b) == min_of(b, a),
        max_of(a, b) == max_of(b, a),
        min_of(min_of(a, b), c) == min_of(a, min_of(b, c)),
        max_of(max_of(a, b), c) == max_of(a, max_of(b, c)),
{
    lemma_cmp_cases(a, a);
    lemma_cmp_cases(a, b);
    lemma_cmp_cases(b, c);
    lemma_cmp_cases(a, c);
}

pub(crate) proof fn lemma_cmp_cases<T: PartialOrd>(a: T, b: T)
    requires
        is_total_order::<T>(),
    ensures
        lt(a, b) || lt(b, a) || a == b,
        !(lt(a, b) && lt(b, a)),
        gt(a, b) <==> lt(b, a),
        gt(b, a) <==> lt(a, b),
{
    assert(a.partial_cmp_spec(&b) is Some);
    assert(lt(a, b) <==> gt(b, a));
    assert(lt(b, a) <==> gt(a, b));
    let o = a.partial_cmp_spec(&b);
    if o != Some(core::cmp::Ordering::Less) && o != Some(core::cmp::Ordering::Greater) {
        assert(o == Some(core::cmp::Ordering::Equal));
        assert(a == b);
    }
}

/// The union of boxes is idempotent, commutative and associative, for every
/// coordinate type whose comparison is a total order.
pub proof fn lemma_union_laws<T: PartialOrd>(a: AABB<T>, b: AABB<T>, c: AABB<T>)
    requires
        is_total_order::<T>(),
    ensures
        AABB::spec_union(a, a) == a,
        AABB::spec_union(a, b) == AABB::spec_union(b, a),
        AABB::spec_union(AABB::spec_union(a, b), c) == AABB::spec_union(a, AABB::spec_union(b, c)),
{
    lemma_min_max_scalar(a.min.x, b.min.x, c.min.x);
    lemma_min_max_scalar(a.min.y, b.min.y, c.min.y);
    lemma_min_max_scalar(a.min.z, b.min.z, c.min.z);
    lemma_min_max_scalar(a.max.x, b.max.x, c.max.x);
    lemma_min_max_scalar(a.max.y, b.max.y, c.max.y);
    lemma_min_max_scalar(a.max.z, b.max.z, c.max.z);
}

proof fn lemma_min_max_bound<T: PartialOrd>(a: T, b: T)
    requires
        is_total_order::<T>(),
    ensures
        le(min_of(a, b), a),
        le(min_of(a, b), b),
        le(a, max_of(a, b)),
        le(b, max_of(a, b)),
{
    lemma_cmp_cases(a, b);
}

/// The union of two boxes contains both of them, for every coordinate type
/// whose comparison is a total order.
pub proof fn lemma_union_contains<T: PartialOrd>(a: AABB<T>, b: AABB<T>)
    requires
        is_total_order::<T>(),
    ensures
        AABB::spec_contains(AABB::spec_union(a, b), a),
        AABB::spec_contains(AABB::spec_union(a, b), b),
{
    lemma_min_max_bound(a.min.x, b.min.x);
    lemma_min_max_bound(a.min.y, b.min.y);
    lemma_min_max_bound(a.min.z, b.min.z);
    lemma_min_max_bound(a.max.x, b.max.x);
    lemma_min_max_bound(a.max.y, b.max.y);
    lemma_min_max_bound(a.max.z, b.max.z);
}

proof fn lemma_le_trans<T: PartialOrd>(a: T, b: T, c: T)
    requires
        is_total_order::<T>(),
        le(a, b),
        le(b, c),
    ensures
        le(a, c),
{
    let _ = a.partial_cmp_spec(&b);
    let _ = b.partial_cmp_spec(&c);
}

/// Containment of boxes is transitive, for every coordinate type whose
/// comparison is a total order.
pub proof fn lemma_contains_trans<T: PartialOrd>(a: AABB<T>, b: AABB<T>, c: AABB<T>)
    requires
        is_total_order::<T>(),
        AABB::spec_contains(a, b),
        AABB::spec_contains(b, c),
    ensures
        AABB::spec_contains(a, c),
{
    lemma_le_trans(a.min.x, b.min.x, c.min.x);
    lemma_le_trans(a.min.y, b.min.y, c.min.y);
    lemma_le_trans(a.min.z, b.min.z, c.min.z);
    lemma_le_trans(c.max.x, b.max.x, a.max.x);
    lemma_le_trans(c.max.y, b.max.y, a.max.y);
    lemma_le_trans(c.max.z, b.max.z, a.max.z);
}

/// A box contains itself.
pub proof fn lemma_contains_refl<T: PartialOrd>(a: AABB<T>)
    ensures
        AABB::spec_contains(a, a),
{
}

} // verus!
