use vstd::prelude::*;
use crate::aggregate::{Bvh, BvhNode, span, wf_subtree, leaf_shapes, lemma_leaf_shapes_are_span, node_box, frames_shapes, lemma_span_ordered};
use crate::axis::Axis;
use crate::bounds::{AABB, is_total_order, lemma_union_contains, lemma_contains_trans, lemma_contains_refl};
use vstd::std_specs::cmp::PartialOrdSpec;

verus! {

/// What the construction of a hierarchy asks of the geometry of its shapes.
/// Shapes are named by their numbers; `order[lo .. hi]` is the group at hand.
pub trait SplitHeuristic {
    /// The axis along which the centres of the group's boxes spread the
    /// most, or `None` when they all coincide.
    fn cut_axis(&self, order: &Vec<usize>, lo: usize, hi: usize) -> Option<Axis>;

    /// Whether the centre of the box of shape `a` lies before that of shape
    /// `b` along `axis`.
    fn centroid_before(&self, a: usize, b: usize, axis: Axis) -> bool;

    /// For a group sorted along its cut axis, how many of its first shapes
    /// the cheapest split by the surface area heuristic puts on the left,
    /// or `None` when a leaf costs less than any split.
    fn split_count(&self, order: &Vec<usize>, lo: usize, hi: usize) -> Option<usize>;
}

/// The union of the boxes of the shapes `order[lo .. hi]`, taken from left to
/// right; `empty` when there are none.
pub open spec fn range_union<T: PartialOrd>(
    boxes: Seq<AABB<T>>,
    order: Seq<usize>,
    lo: int,
    hi: int,
    empty: AABB<T>,
) -> AABB<T>
    decreases hi - lo,
{
    if hi <= lo {
        empty
    } else if hi == lo + 1 {
        boxes[order[lo] as int]
    } else {
        AABB::spec_union(range_union(boxes, order, lo, hi - 1, empty), boxes[order[hi - 1] as int])
    }
}

/// Each interior node of the subtree carries the union of its children's
/// boxes.
pub open spec fn boxes_nested<T: PartialOrd>(nodes: Seq<BvhNode<T>>, i: int, end: int) -> bool
    decreases end - i,
{
    if i < 0 || i >= end || end > nodes.len() {
        true
    } else {
        match nodes[i] {
            BvhNode::Leaf { .. } => true,
            BvhNode::Interior { bounding_box, right_offset, .. } => {
                let ro = right_offset as int;
                if 2 <= ro && i + ro < end {
                    &&& bounding_box == AABB::spec_union(node_box(nodes[i + 1]), node_box(nodes[i + ro]))
                    &&& boxes_nested(nodes, i + 1, i + ro)
                    &&& boxes_nested(nodes, i + ro, end)
                } else {
                    true
                }
            },
        }
    }
}

/// Each interior node of the subtree spans more than two shapes (groups of
/// two or fewer always become leaves), and each of its children at least
/// one.
pub open spec fn splits_only_large<T>(nodes: Seq<BvhNode<T>>, i: int, end: int) -> bool
    decreases end - i,
{
    if i < 0 || i >= end || end > nodes.len() {
        true
    } else {
        match nodes[i] {
            BvhNode::Leaf { .. } => true,
            BvhNode::Interior { right_offset, .. } => {
                let ro = right_offset as int;
                if 2 <= ro && i + ro < end {
                    &&& span(nodes, i, end).1 - span(nodes, i, end).0 > 2
                    &&& span(nodes, i + 1, i + ro).0 < span(nodes, i + 1, i + ro).1
                    &&& span(nodes, i + ro, end).0 < span(nodes, i + ro, end).1
                    &&& splits_only_large(nodes, i + 1, i + ro)
                    &&& splits_only_large(nodes, i + ro, end)
                } else {
                    true
                }
            },
        }
    }
}

/// Each leaf of the subtree carries the union of the boxes of its shapes.
pub open spec fn leaf_boxes_exact<T: PartialOrd>(
    nodes: Seq<BvhNode<T>>,
    order: Seq<usize>,
    boxes: Seq<AABB<T>>,
    empty: AABB<T>,
    i: int,
    end: int,
) -> bool
    decreases end - i,
{
    if i < 0 || i >= end || end > nodes.len() {
        true
    } else {
        match nodes[i] {
            BvhNode::Leaf { bounding_box, first, count } => bounding_box == range_union(
                boxes,
                order,
                first as int,
                first + count,
                empty,
            ),
            BvhNode::Interior { right_offset, .. } => {
                let ro = right_offset as int;
                if 2 <= ro && i + ro < end {
                    &&& leaf_boxes_exact(nodes, order, boxes, empty, i + 1, i + ro)
                    &&& leaf_boxes_exact(nodes, order, boxes, empty, i + ro, end)
                } else {
                    true
                }
            },
        }
    }
}

proof fn lemma_range_union_agree<T: PartialOrd>(
    boxes: Seq<AABB<T>>,
    o1: Seq<usize>,
    o2: Seq<usize>,
    lo: int,
    hi: int,
    empty: AABB<T>,
)
    requires
        forall|k: int| lo <= k < hi ==> o1[k] == o2[k],
    ensures
        range_union(boxes, o1, lo, hi, empty) == range_union(boxes, o2, lo, hi, empty),
    decreases hi - lo,
{
    if hi > lo + 1 {
        lemma_range_union_agree(boxes, o1, o2, lo, hi - 1, empty);
    }
}

proof fn lemma_leaf_boxes_order<T: PartialOrd>(
    nodes: Seq<BvhNode<T>>,
    o1: Seq<usize>,
    o2: Seq<usize>,
    boxes: Seq<AABB<T>>,
    empty: AABB<T>,
    i: int,
    end: int,
)
    requires
        wf_subtree(nodes, i, end),
        leaf_boxes_exact(nodes, o1, boxes, empty, i, end),
        forall|k: int| span(nodes, i, end).0 <= k < span(nodes, i, end).1 ==> o1[k] == o2[k],
    ensures
        leaf_boxes_exact(nodes, o2, boxes, empty, i, end),
    decreases end - i,
{
    match nodes[i] {
        BvhNode::Leaf { first, count, .. } => {
            lemma_range_union_agree(boxes, o1, o2, first as int, first + count, empty);
        },
        BvhNode::Interior { right_offset, .. } => {
            let ro = right_offset as int;
            lemma_span_ordered(nodes, i + 1, i + ro);
            lemma_span_ordered(nodes, i + ro, end);
            lemma_leaf_boxes_order(nodes, o1, o2, boxes, empty, i + 1, i + ro);
            lemma_leaf_boxes_order(nodes, o1, o2, boxes, empty, i + ro, end);
        },
    }
}

proof fn lemma_leaf_boxes_agree<T: PartialOrd>(
    a: Seq<BvhNode<T>>,
    b: Seq<BvhNode<T>>,
    order: Seq<usize>,
    boxes: Seq<AABB<T>>,
    empty: AABB<T>,
    i: int,
    end: int,
)
    requires
        wf_subtree(a, i, end),
        agree_on(a, b, i, end),
        leaf_boxes_exact(a, order, boxes, empty, i, end),
    ensures
        leaf_boxes_exact(b, order, boxes, empty, i, end),
    decreases end - i,
{
    assert(a[i] == b[i]);
    match a[i] {
        BvhNode::Leaf { .. } => {},
        BvhNode::Interior { right_offset, .. } => {
            let ro = right_offset as int;
            lemma_leaf_boxes_agree(a, b, order, boxes, empty, i + 1, i + ro);
            lemma_leaf_boxes_agree(a, b, order, boxes, empty, i + ro, end);
        },
    }
}

/// The nodes `[i, end)` of `a` and `b` are the same.
pub open spec fn agree_on<T>(a: Seq<BvhNode<T>>, b: Seq<BvhNode<T>>, i: int, end: int) -> bool {
    &&& 0 <= i <= end
    &&& end <= a.len()
    &&& end <= b.len()
    &&& forall|k: int| i <= k < end ==> a[k] == b[k]
}

proof fn lemma_agree<T: PartialOrd>(a: Seq<BvhNode<T>>, b: Seq<BvhNode<T>>, i: int, end: int)
    requires
        wf_subtree(a, i, end),
        agree_on(a, b, i, end),
    ensures
        wf_subtree(b, i, end),
        span(b, i, end) == span(a, i, end),
        boxes_nested(a, i, end) ==> boxes_nested(b, i, end),
        splits_only_large(a, i, end) ==> splits_only_large(b, i, end),
    decreases end - i,
{
    assert(a[i] == b[i]);
    match a[i] {
        BvhNode::Leaf { .. } => {},
        BvhNode::Interior { right_offset, .. } => {
            let ro = right_offset as int;
            lemma_agree(a, b, i + 1, i + ro);
            lemma_agree(a, b, i + ro, end);
            assert(a[i + 1] == b[i + 1]);
            assert(a[i + ro] == b[i + ro]);
        },
    }
}

proof fn lemma_swap_multiset(s: Seq<usize>, a: int, b: int)
    requires
        0 <= a < s.len(),
        0 <= b < s.len(),
    ensures
        s.update(a, s[b]).update(b, s[a]).to_multiset() =~= s.to_multiset(),
{
    broadcast use {
        vstd::seq_lib::to_multiset_update,
        vstd::seq_lib::group_to_multiset_ensures,
        vstd::multiset::group_multiset_axioms,
    };
    let s1 = s.update(a, s[b]);
    assert(s1.to_multiset() == s.to_multiset().insert(s[b]).remove(s[a]));
    assert(s1.update(b, s[a]).to_multiset() == s1.to_multiset().insert(s[a]).remove(s1[b]));
    if a == b {
        assert(s1.update(b, s[a]) =~= s);
    } else {
        assert(s1[b] == s[b]);
        assert(s.to_multiset().count(s[a]) > 0);
        assert(s.to_multiset().count(s[b]) > 0);
        let m = s.to_multiset();
        let m2 = m.insert(s[b]).remove(s[a]).insert(s[a]).remove(s[b]);
        assert(m2 =~= m);
    }
}

/// Sorts `order[lo .. hi]` by the centres of the shapes' boxes along `axis`,
/// by insertion; the other entries stay where they are.
fn sort_range<H: SplitHeuristic>(order: &mut Vec<usize>, lo: usize, hi: usize, axis: Axis, heuristic: &H)
    requires
        lo <= hi <= old(order)@.len(),
    ensures
        final(order)@.len() == old(order)@.len(),
        final(order)@.to_multiset() == old(order)@.to_multiset(),
        forall|k: int| 0 <= k < lo || hi <= k < old(order)@.len() ==> final(order)@[k] == old(order)@[k],
{
    if hi - lo < 2 {
        return;
    }
    let ghost initial = order@;
    let mut i: usize = lo + 1;
    while i < hi
        invariant
            lo < i <= hi,
            hi <= order@.len(),
            order@.len() == initial.len(),
            order@.to_multiset() == initial.to_multiset(),
            forall|k: int| 0 <= k < lo || hi <= k < initial.len() ==> order@[k] == initial[k],
        decreases hi - i,
    {
        let mut j: usize = i;
        loop
            invariant
                lo <= j <= i < hi,
                hi <= order@.len(),
                order@.len() == initial.len(),
                order@.to_multiset() == initial.to_multiset(),
                forall|k: int| 0 <= k < lo || hi <= k < initial.len() ==> order@[k] == initial[k],
            decreases j - lo,
        {
            if j == lo {
                break;
            }
            if !heuristic.centroid_before(order[j], order[j - 1], axis) {
                break;
            }
            let a = order[j - 1];
            let b = order[j];
            proof {
                lemma_swap_multiset(order@, j - 1, j as int);
            }
            order.set(j - 1, b);
            order.set(j, a);
            j = j - 1;
        }
        i = i + 1;
    }
}

/// The union of the boxes of the shapes `order[lo .. hi]`, or `empty` when
/// there are none.
fn leaf_box<T: PartialOrd + Copy>(
    boxes: &Vec<AABB<T>>,
    order: &Vec<usize>,
    lo: usize,
    hi: usize,
    empty: AABB<T>,
) -> (r: AABB<T>)
    requires
        lo <= hi <= order@.len(),
        forall|k: int| lo <= k < hi ==> (#[trigger] order@[k] as int) < boxes@.len(),
    ensures
        T::obeys_partial_cmp_spec() ==> r == range_union(boxes@, order@, lo as int, hi as int, empty),
{
    if lo == hi {
        return empty;
    }
    let mut b = boxes[order[lo]];
    let mut k: usize = lo + 1;
    while k < hi
        invariant
            lo < k <= hi,
            hi <= order@.len(),
            forall|q: int| lo <= q < hi ==> (#[trigger] order@[q] as int) < boxes@.len(),
            T::obeys_partial_cmp_spec() ==> b == range_union(boxes@, order@, lo as int, k as int, empty),
        decreases hi - k,
    {
        b = AABB::union(&b, &boxes[order[k]]);
        k = k + 1;
    }
    b
}

proof fn lemma_bounded_by_multiset(s1: Seq<usize>, s2: Seq<usize>, bound: int)
    requires
        s1.to_multiset() == s2.to_multiset(),
        forall|k: int| 0 <= k < s2.len() ==> (#[trigger] s2[k] as int) < bound,
    ensures
        forall|k: int| 0 <= k < s1.len() ==> (#[trigger] s1[k] as int) < bound,
{
    broadcast use {vstd::seq_lib::group_to_multiset_ensures, vstd::seq_lib::to_multiset_contains};
    assert forall|k: int| 0 <= k < s1.len() implies (#[trigger] s1[k] as int) < bound by {
        assert(s1.contains(s1[k]));
        assert(s1.to_multiset().count(s1[k]) > 0);
        assert(s2.contains(s1[k]));
        let j = choose|j: int| 0 <= j < s2.len() && s2[j] == s1[k];
        assert((s2[j] as int) < bound);
    }
}

/// Where a group `[lo, hi)` is split, given how many shapes the heuristic
/// proposes to put on the left: a proposal that leaves either side empty is
/// no split.
pub fn split_point(lo: usize, hi: usize, proposal: Option<usize>) -> (r: Option<usize>)
    requires
        lo <= hi,
    ensures
        r == match proposal {
            Some(k) => if 0 < k && k < hi - lo { Some((lo + k) as usize) } else { None::<usize> },
            None => None::<usize>,
        },
{
    match proposal {
        Some(k) => {
            if 0 < k && k < hi - lo {
                Some(lo + k)
            } else {
                None
            }
        },
        None => None,
    }
}

/// Builds the subtree over the shapes `order[lo .. hi]` at the end of
/// `nodes`, reordering only that range of `order`.
fn build_range<T: PartialOrd + Copy, H: SplitHeuristic>(
    nodes: &mut Vec<BvhNode<T>>,
    order: &mut Vec<usize>,
    boxes: &Vec<AABB<T>>,
    empty: AABB<T>,
    heuristic: &H,
    lo: usize,
    hi: usize,
)
    requires
        lo <= hi <= old(order)@.len(),
        forall|k: int| 0 <= k < old(order)@.len() ==> (#[trigger] old(order)@[k] as int) < boxes@.len(),
    ensures
        final(nodes)@.len() > old(nodes)@.len(),
        agree_on(old(nodes)@, final(nodes)@, 0, old(nodes)@.len() as int),
        wf_subtree(final(nodes)@, old(nodes)@.len() as int, final(nodes)@.len() as int),
        span(final(nodes)@, old(nodes)@.len() as int, final(nodes)@.len() as int) == (lo as int, hi as int),
        T::obeys_partial_cmp_spec() ==> boxes_nested(
            final(nodes)@,
            old(nodes)@.len() as int,
            final(nodes)@.len() as int,
        ),
        splits_only_large(final(nodes)@, old(nodes)@.len() as int, final(nodes)@.len() as int),
        final(nodes)@.len() - old(nodes)@.len() <= if hi - lo <= 1 { 1 } else { 2 * (hi - lo) - 1 },
        hi - lo <= 2 ==> final(nodes)@.len() == old(nodes)@.len() + 1 && final(order)@ == old(order)@,
        T::obeys_partial_cmp_spec() ==> leaf_boxes_exact(
            final(nodes)@,
            final(order)@,
            boxes@,
            empty,
            old(nodes)@.len() as int,
            final(nodes)@.len() as int,
        ),
        final(order)@.len() == old(order)@.len(),
        final(order)@.to_multiset() == old(order)@.to_multiset(),
        forall|k: int| 0 <= k < lo || hi <= k < old(order)@.len() ==> final(order)@[k] == old(order)@[k],
        forall|k: int| 0 <= k < final(order)@.len() ==> (#[trigger] final(order)@[k] as int) < boxes@.len(),
    decreases hi - lo,
{
    let node_idx = nodes.len();
    let n = hi - lo;
    let mut split: Option<(usize, Axis)> = None;
    if n > 2 {
        match heuristic.cut_axis(order, lo, hi) {
            Some(axis) => {
                let ghost before = order@;
                sort_range(order, lo, hi, axis, heuristic);
                proof {
                    lemma_bounded_by_multiset(order@, before, boxes@.len() as int);
                }
                match split_point(lo, hi, heuristic.split_count(order, lo, hi)) {
                    Some(mid) => {
                        split = Some((mid, axis));
                    },
                    None => {},
                }
            },
            None => {},
        }
    }
    match split {
        None => {
            let bounding_box = leaf_box(boxes, order, lo, hi, empty);
            nodes.push(BvhNode::Leaf { bounding_box, first: lo, count: n });
            proof {
                assert(agree_on(old(nodes)@, nodes@, 0, old(nodes)@.len() as int));
            }
        },
        Some((mid, axis)) => {
            nodes.push(BvhNode::Interior { bounding_box: empty, cut_axis: axis, right_offset: 0 });
            let ghost n1 = nodes@;
            build_range(nodes, order, boxes, empty, heuristic, lo, mid);
            let ghost n2 = nodes@;
            let ghost o2 = order@;
            let right_idx = nodes.len();
            build_range(nodes, order, boxes, empty, heuristic, mid, hi);
            let ghost n3 = nodes@;
            let bounding_box = AABB::union(&nodes[node_idx + 1].bounding_box(), &nodes[right_idx].bounding_box());
            nodes.set(node_idx, BvhNode::Interior { bounding_box, cut_axis: axis, right_offset: right_idx - node_idx });
            proof {
                let i = node_idx as int;
                let e1 = right_idx as int;
                let e2 = nodes@.len() as int;
                lemma_agree(n2, n3, i + 1, e1);
                lemma_agree(n3, nodes@, i + 1, e1);
                lemma_agree(n3, nodes@, e1, e2);
                if T::obeys_partial_cmp_spec() {
                    lemma_leaf_boxes_order(n2, o2, order@, boxes@, empty, i + 1, e1);
                    lemma_leaf_boxes_agree(n2, n3, order@, boxes@, empty, i + 1, e1);
                    lemma_leaf_boxes_agree(n3, nodes@, order@, boxes@, empty, i + 1, e1);
                    lemma_leaf_boxes_agree(n3, nodes@, order@, boxes@, empty, e1, e2);
                }
                assert(nodes@[i + 1] == n3[i + 1]);
                assert(nodes@[e1] == n3[e1]);
                assert(n1[i] == n2[i]);
                assert(wf_subtree(nodes@, i, e2));
                assert(span(nodes@, i, e2) == (lo as int, hi as int));
                assert(agree_on(old(nodes)@, nodes@, 0, i)) by {
                    assert forall|k: int| 0 <= k < i implies old(nodes)@[k] == nodes@[k] by {
                        assert(n1[k] == old(nodes)@[k]);
                        assert(n2[k] == n1[k]);
                        assert(n3[k] == n2[k]);
                    }
                }
            }
        },
    }
}

proof fn lemma_identity_count(n: nat, s: usize)
    requires
        n <= usize::MAX,
    ensures
        Seq::new(n, |k: int| k as usize).to_multiset().count(s) == if (s as int) < n { 1nat } else { 0nat },
    decreases n,
{
    broadcast use {vstd::seq_lib::to_multiset_build, vstd::multiset::group_multiset_axioms, vstd::seq_lib::to_multiset_len};
    if n == 0 {
        assert(Seq::new(0, |k: int| k as usize) =~= Seq::<usize>::empty());
        assert(Seq::<usize>::empty().to_multiset().len() == 0);
        vstd::multiset::lemma_multiset_empty_len(Seq::<usize>::empty().to_multiset());
    } else {
        let prev = Seq::new((n - 1) as nat, |k: int| k as usize);
        let last = (n - 1) as usize;
        assert(Seq::new(n, |k: int| k as usize) =~= prev.push(last));
        lemma_identity_count((n - 1) as nat, s);
        assert(prev.push(last).to_multiset() == prev.to_multiset().insert(last));
        if s == last {
            assert(prev.to_multiset().insert(last).count(s) == prev.to_multiset().count(s) + 1);
        } else {
            assert(prev.to_multiset().insert(last).count(s) == prev.to_multiset().count(s));
        }
    }
}

/// A well formed hierarchy whose order is a permutation of `0 .. n` holds
/// every shape `s < n` in exactly one leaf, and no other shape.
pub proof fn lemma_bvh_covers_each_shape_once<T>(bvh: Bvh<T>, n: usize, s: usize)
    requires
        bvh.wf(),
        bvh.order@.to_multiset() == Seq::new(n as nat, |k: int| k as usize).to_multiset(),
    ensures
        leaf_shapes(bvh.nodes@, bvh.order@, 0, bvh.nodes@.len() as int).to_multiset().count(s)
            == if s < n { 1nat } else { 0nat },
{
    let len = bvh.nodes@.len() as int;
    broadcast use vstd::seq_lib::to_multiset_len;
    assert(n == bvh.order@.len()) by {
        assert(Seq::new(n as nat, |k: int| k as usize).to_multiset().len() == n);
    }
    lemma_leaf_shapes_are_span(bvh.nodes@, bvh.order@, 0, len);
    assert(bvh.order@.subrange(0, bvh.order@.len() as int) =~= bvh.order@);
    lemma_identity_count(n as nat, s);
}

/// A walk of a hierarchy whose order is a permutation of `0 .. n` (as
/// `new_bvh` builds it), reported by `Bvh::hit` as the shapes it tested and
/// the subtrees whose boxes the query turned down: each shape `s < n` was
/// either tested once or lies in one turned-down subtree, and never both;
/// when no box was turned down, each was tested exactly once.
pub proof fn lemma_walk_tests_each_shape_once<T>(
    bvh: Bvh<T>,
    n: usize,
    tested: Seq<usize>,
    rejected: Seq<(int, int)>,
    s: usize,
)
    requires
        bvh.wf(),
        bvh.order@.to_multiset() == Seq::new(n as nat, |k: int| k as usize).to_multiset(),
        tested.to_multiset().add(frames_shapes(bvh.nodes@, bvh.order@, rejected)) == bvh.order@.to_multiset(),
        rejected.len() == 0 ==> tested.to_multiset() == bvh.order@.to_multiset(),
    ensures
        tested.to_multiset().count(s) + frames_shapes(bvh.nodes@, bvh.order@, rejected).count(s)
            == if s < n { 1nat } else { 0nat },
        tested.to_multiset().count(s) <= 1,
        rejected.len() == 0 && s < n ==> tested.to_multiset().count(s) == 1,
{
    broadcast use vstd::multiset::group_multiset_axioms;
    lemma_identity_count(n as nat, s);
}

proof fn lemma_nested_contains<T: PartialOrd>(nodes: Seq<BvhNode<T>>, i: int, end: int, k: int)
    requires
        is_total_order::<T>(),
        wf_subtree(nodes, i, end),
        boxes_nested(nodes, i, end),
        i <= k < end,
    ensures
        nodes[k] matches BvhNode::Interior { right_offset, .. } ==> {
            &&& k + right_offset < end
            &&& AABB::spec_contains(node_box(nodes[k]), node_box(nodes[k + 1]))
            &&& AABB::spec_contains(node_box(nodes[k]), node_box(nodes[k + right_offset as int]))
        },
    decreases end - i,
{
    match nodes[i] {
        BvhNode::Leaf { .. } => {},
        BvhNode::Interior { right_offset, .. } => {
            let ro = right_offset as int;
            if k == i {
                lemma_union_contains(node_box(nodes[i + 1]), node_box(nodes[i + ro]));
            } else if k < i + ro {
                lemma_nested_contains(nodes, i + 1, i + ro, k);
            } else {
                lemma_nested_contains(nodes, i + ro, end, k);
            }
        },
    }
}

/// In a hierarchy that `new_bvh` built, the box of every interior node
/// contains the boxes of both of its children, for every coordinate type
/// whose comparison is a total order.
pub proof fn lemma_bvh_boxes_contain_children<T: PartialOrd>(bvh: Bvh<T>, k: int)
    requires
        is_total_order::<T>(),
        bvh.wf(),
        boxes_nested(bvh.nodes@, 0, bvh.nodes@.len() as int),
        0 <= k < bvh.nodes@.len(),
    ensures
        bvh.nodes@[k] matches BvhNode::Interior { right_offset, .. } ==> {
            &&& k + right_offset < bvh.nodes@.len()
            &&& AABB::spec_contains(node_box(bvh.nodes@[k]), node_box(bvh.nodes@[k + 1]))
            &&& AABB::spec_contains(node_box(bvh.nodes@[k]), node_box(bvh.nodes@[k + right_offset as int]))
        },
{
    lemma_nested_contains(bvh.nodes@, 0, bvh.nodes@.len() as int, k);
}

proof fn lemma_range_union_contains<T: PartialOrd>(
    boxes: Seq<AABB<T>>,
    order: Seq<usize>,
    lo: int,
    hi: int,
    empty: AABB<T>,
    k: int,
)
    requires
        is_total_order::<T>(),
        lo <= k < hi,
    ensures
        AABB::spec_contains(range_union(boxes, order, lo, hi, empty), boxes[order[k] as int]),
    decreases hi - lo,
{
    if hi == lo + 1 {
        lemma_contains_refl(boxes[order[k] as int]);
    } else {
        let prev = range_union(boxes, order, lo, hi - 1, empty);
        let last = boxes[order[hi - 1] as int];
        lemma_union_contains(prev, last);
        if k < hi - 1 {
            lemma_range_union_contains(boxes, order, lo, hi - 1, empty, k);
            lemma_contains_trans(AABB::spec_union(prev, last), prev, boxes[order[k] as int]);
        }
    }
}

proof fn lemma_subtree_contains<T: PartialOrd>(
    nodes: Seq<BvhNode<T>>,
    order: Seq<usize>,
    boxes: Seq<AABB<T>>,
    empty: AABB<T>,
    i: int,
    end: int,
    k: int,
)
    requires
        is_total_order::<T>(),
        wf_subtree(nodes, i, end),
        boxes_nested(nodes, i, end),
        leaf_boxes_exact(nodes, order, boxes, empty, i, end),
        span(nodes, i, end).0 <= k < span(nodes, i, end).1,
    ensures
        AABB::spec_contains(node_box(nodes[i]), boxes[order[k] as int]),
    decreases end - i,
{
    match nodes[i] {
        BvhNode::Leaf { first, count, .. } => {
            lemma_range_union_contains(boxes, order, first as int, first + count, empty, k);
        },
        BvhNode::Interior { right_offset, .. } => {
            let ro = right_offset as int;
            let lb = node_box(nodes[i + 1]);
            let rb = node_box(nodes[i + ro]);
            lemma_union_contains(lb, rb);
            if k < span(nodes, i + 1, i + ro).1 {
                lemma_subtree_contains(nodes, order, boxes, empty, i + 1, i + ro, k);
                lemma_contains_trans(node_box(nodes[i]), lb, boxes[order[k] as int]);
            } else {
                lemma_subtree_contains(nodes, order, boxes, empty, i + ro, end, k);
                lemma_contains_trans(node_box(nodes[i]), rb, boxes[order[k] as int]);
            }
        },
    }
}

/// In a hierarchy that `new_bvh` built over `boxes`, the box of the node
/// that roots the subtree `[i, end)` contains the box of every shape that
/// the subtree holds, for every coordinate type whose comparison is a
/// total order: the bounds are conservative.
pub proof fn lemma_bvh_boxes_cover_shapes<T: PartialOrd>(
    bvh: Bvh<T>,
    boxes: Seq<AABB<T>>,
    empty: AABB<T>,
    i: int,
    end: int,
    k: int,
)
    requires
        is_total_order::<T>(),
        bvh.wf(),
        boxes_nested(bvh.nodes@, 0, bvh.nodes@.len() as int),
        leaf_boxes_exact(bvh.nodes@, bvh.order@, boxes, empty, 0, bvh.nodes@.len() as int),
        subtree_of(bvh.nodes@, 0, bvh.nodes@.len() as int, i, end),
        span(bvh.nodes@, i, end).0 <= k < span(bvh.nodes@, i, end).1,
    ensures
        AABB::spec_contains(node_box(bvh.nodes@[i]), boxes[bvh.order@[k] as int]),
{
    lemma_subtree_props(bvh.nodes@, bvh.order@, boxes, empty, 0, bvh.nodes@.len() as int, i, end);
    lemma_subtree_contains(bvh.nodes@, bvh.order@, boxes, empty, i, end, k);
}

/// `[i, end)` is the subtree of some node within the subtree `[r, rend)`.
pub open spec fn subtree_of<T>(nodes: Seq<BvhNode<T>>, r: int, rend: int, i: int, end: int) -> bool
    decreases rend - r,
{
    if r < 0 || r >= rend || rend > nodes.len() {
        false
    } else if r == i && rend == end {
        true
    } else {
        match nodes[r] {
            BvhNode::Leaf { .. } => false,
            BvhNode::Interior { right_offset, .. } => {
                let ro = right_offset as int;
                2 <= ro && r + ro < rend && (subtree_of(nodes, r + 1, r + ro, i, end) || subtree_of(
                    nodes,
                    r + ro,
                    rend,
                    i,
                    end,
                ))
            },
        }
    }
}

proof fn lemma_subtree_props<T: PartialOrd>(
    nodes: Seq<BvhNode<T>>,
    order: Seq<usize>,
    boxes: Seq<AABB<T>>,
    empty: AABB<T>,
    r: int,
    rend: int,
    i: int,
    end: int,
)
    requires
        wf_subtree(nodes, r, rend),
        boxes_nested(nodes, r, rend),
        leaf_boxes_exact(nodes, order, boxes, empty, r, rend),
        subtree_of(nodes, r, rend, i, end),
    ensures
        wf_subtree(nodes, i, end),
        boxes_nested(nodes, i, end),
        leaf_boxes_exact(nodes, order, boxes, empty, i, end),
    decreases rend - r,
{
    if !(r == i && rend == end) {
        match nodes[r] {
            BvhNode::Leaf { .. } => {},
            BvhNode::Interior { right_offset, .. } => {
                let ro = right_offset as int;
                if subtree_of(nodes, r + 1, r + ro, i, end) {
                    lemma_subtree_props(nodes, order, boxes, empty, r + 1, r + ro, i, end);
                } else {
                    lemma_subtree_props(nodes, order, boxes, empty, r + ro, rend, i, end);
                }
            },
        }
    }
}

/// Builds a bounding volume hierarchy over the shapes whose boxes are
/// `boxes`, with the surface area heuristic that `heuristic` evaluates. A
/// leaf without shapes carries `empty`.
pub fn new_bvh<T: PartialOrd + Copy, H: SplitHeuristic>(
    boxes: &Vec<AABB<T>>,
    empty: AABB<T>,
    heuristic: &H,
) -> (r: Bvh<T>)
    ensures
        r.wf(),
        r.order@.len() == boxes@.len(),
        r.order@.to_multiset() == Seq::new(boxes@.len(), |k: int| k as usize).to_multiset(),
        T::obeys_partial_cmp_spec() ==> boxes_nested(r.nodes@, 0, r.nodes@.len() as int),
        splits_only_large(r.nodes@, 0, r.nodes@.len() as int),
        T::obeys_partial_cmp_spec() ==> leaf_boxes_exact(r.nodes@, r.order@, boxes@, empty, 0, r.nodes@.len() as int),
        r.nodes@.len() <= if boxes@.len() <= 1 { 1 } else { 2 * boxes@.len() - 1 },
        boxes@.len() <= 2 ==> r.nodes@.len() == 1 && r.order@ == Seq::new(boxes@.len(), |k: int| k as usize),
{
    let mut order: Vec<usize> = Vec::new();
    let n = boxes.len();
    while order.len() < n
        invariant
            order@.len() <= n,
            n == boxes@.len(),
            forall|k: int| 0 <= k < order@.len() ==> #[trigger] order@[k] == k as usize,
        decreases n - order@.len(),
    {
        order.push(order.len());
    }
    let ghost initial = order@;
    assert(initial =~= Seq::new(boxes@.len(), |k: int| k as usize));
    let mut nodes: Vec<BvhNode<T>> = Vec::new();
    build_range(&mut nodes, &mut order, boxes, empty, heuristic, 0, n);
    Bvh { nodes, order }
}

} // verus!
