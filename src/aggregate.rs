use vstd::prelude::*;
use crate::axis::Axis;
use crate::bounds::AABB;
use vstd::multiset::Multiset;
use crate::record::Recorder;

verus! {

/// One node of a bounding volume hierarchy stored as a flat pre-order array.
/// The left child of an interior node is the next node; the right child is
/// `right_offset` nodes further on. A leaf holds the shapes
/// `order[first .. first + count]` of its hierarchy.
pub enum BvhNode<T> {
    Leaf { bounding_box: AABB<T>, first: usize, count: usize },
    Interior { bounding_box: AABB<T>, cut_axis: Axis, right_offset: usize },
}

/// A bounding volume hierarchy over shapes numbered `0 .. order.len()`.
pub struct Bvh<T> {
    pub nodes: Vec<BvhNode<T>>,
    pub order: Vec<usize>,
}

/// Scratch space that a worker hands to an aggregate for each query.
pub enum Workspace {
    Void,
    BVH(Vec<usize>),
}

impl Workspace {
    /// The number of stack slots, zero for the void workspace.
    pub open spec fn slots(self) -> nat {
        match self {
            Workspace::Void => 0,
            Workspace::BVH(v) => v@.len(),
        }
    }
}

/// The box that a node carries.
pub open spec fn node_box<T>(node: BvhNode<T>) -> AABB<T> {
    match node {
        BvhNode::Leaf { bounding_box, .. } => bounding_box,
        BvhNode::Interior { bounding_box, .. } => bounding_box,
    }
}

impl<T: Copy> BvhNode<T> {
    /// The box that the node carries.
    pub fn bounding_box(&self) -> (r: AABB<T>)
        ensures
            r == node_box(*self),
    {
        match self {
            BvhNode::Leaf { bounding_box, .. } => *bounding_box,
            BvhNode::Interior { bounding_box, .. } => *bounding_box,
        }
    }
}

/// The range `[lo, hi)` of `order` that the subtree rooted at node `i` and
/// ending before node `end` holds.
pub open spec fn span<T>(nodes: Seq<BvhNode<T>>, i: int, end: int) -> (int, int)
    decreases end - i,
{
    if i < 0 || i >= end || end > nodes.len() {
        (0, 0)
    } else {
        match nodes[i] {
            BvhNode::Leaf { first, count, .. } => (first as int, first + count),
            BvhNode::Interior { right_offset, .. } => {
                let ro = right_offset as int;
                if 2 <= ro && i + ro < end {
                    (span(nodes, i + 1, i + ro).0, span(nodes, i + ro, end).1)
                } else {
                    (0, 0)
                }
            },
        }
    }
}

/// The nodes `[i, end)` form one subtree in pre-order: a leaf alone, or an
/// interior node followed by its left subtree and then its right subtree,
/// whose shape ranges are adjacent.
pub open spec fn wf_subtree<T>(nodes: Seq<BvhNode<T>>, i: int, end: int) -> bool
    decreases end - i,
{
    &&& 0 <= i < end <= nodes.len()
    &&& match nodes[i] {
        BvhNode::Leaf { .. } => end == i + 1,
        BvhNode::Interior { right_offset, .. } => {
            let ro = right_offset as int;
            &&& 2 <= ro
            &&& i + ro < end
            &&& wf_subtree(nodes, i + 1, i + ro)
            &&& wf_subtree(nodes, i + ro, end)
            &&& span(nodes, i + 1, i + ro).1 == span(nodes, i + ro, end).0
        },
    }
}

/// The shapes of the leaves of a subtree, leaf after leaf in pre-order.
pub open spec fn leaf_shapes<T>(nodes: Seq<BvhNode<T>>, order: Seq<usize>, i: int, end: int) -> Seq<usize>
    decreases end - i,
{
    if i < 0 || i >= end || end > nodes.len() {
        Seq::empty()
    } else {
        match nodes[i] {
            BvhNode::Leaf { first, count, .. } => order.subrange(first as int, first + count),
            BvhNode::Interior { right_offset, .. } => {
                let ro = right_offset as int;
                if 2 <= ro && i + ro < end {
                    leaf_shapes(nodes, order, i + 1, i + ro) + leaf_shapes(nodes, order, i + ro, end)
                } else {
                    Seq::empty()
                }
            },
        }
    }
}

pub(crate) proof fn lemma_span_ordered<T>(nodes: Seq<BvhNode<T>>, i: int, end: int)
    requires
        wf_subtree(nodes, i, end),
    ensures
        span(nodes, i, end).0 <= span(nodes, i, end).1,
    decreases end - i,
{
    match nodes[i] {
        BvhNode::Leaf { .. } => {},
        BvhNode::Interior { right_offset, .. } => {
            lemma_span_ordered(nodes, i + 1, i + right_offset as int);
            lemma_span_ordered(nodes, i + right_offset as int, end);
        },
    }
}

/// The shapes of the leaves of a well formed subtree, in pre-order, are the
/// range of `order` that the subtree spans.
pub proof fn lemma_leaf_shapes_are_span<T>(nodes: Seq<BvhNode<T>>, order: Seq<usize>, i: int, end: int)
    requires
        wf_subtree(nodes, i, end),
        0 <= span(nodes, i, end).0,
        span(nodes, i, end).1 <= order.len(),
    ensures
        span(nodes, i, end).0 <= span(nodes, i, end).1,
        leaf_shapes(nodes, order, i, end) =~= order.subrange(span(nodes, i, end).0, span(nodes, i, end).1),
    decreases end - i,
{
    match nodes[i] {
        BvhNode::Leaf { .. } => {},
        BvhNode::Interior { right_offset, .. } => {
            let ro = right_offset as int;
            lemma_span_ordered(nodes, i + 1, i + ro);
            lemma_span_ordered(nodes, i + ro, end);
            lemma_leaf_shapes_are_span(nodes, order, i + 1, i + ro);
            lemma_leaf_shapes_are_span(nodes, order, i + ro, end);
            let lo = span(nodes, i, end).0;
            let mid = span(nodes, i + 1, i + ro).1;
            let hi = span(nodes, i, end).1;
            assert(order.subrange(lo, mid) + order.subrange(mid, hi) =~= order.subrange(lo, hi));
        },
    }
}

/// The sum of the sizes of the subtrees `[s, e)` on a traversal stack.
pub open spec fn frames_size(frames: Seq<(int, int)>) -> int
    decreases frames.len(),
{
    if frames.len() == 0 {
        0
    } else {
        frames_size(frames.drop_last()) + (frames.last().1 - frames.last().0)
    }
}

proof fn lemma_frames_size_bound(frames: Seq<(int, int)>)
    requires
        forall|j: int| 0 <= j < frames.len() ==> #[trigger] frames[j].0 < frames[j].1,
    ensures
        frames.len() <= frames_size(frames),
    decreases frames.len(),
{
    if frames.len() > 0 {
        let d = frames.drop_last();
        assert forall|j: int| 0 <= j < d.len() implies #[trigger] d[j].0 < d[j].1 by {
            assert(d[j] == frames[j]);
        }
        lemma_frames_size_bound(d);
        assert(frames[frames.len() - 1].0 < frames[frames.len() - 1].1);
    }
}

/// The shapes of the subtrees `[s, e)` on a traversal stack, together.
pub open spec fn frames_shapes<T>(nodes: Seq<BvhNode<T>>, order: Seq<usize>, frames: Seq<(int, int)>) -> Multiset<usize>
    decreases frames.len(),
{
    if frames.len() == 0 {
        Multiset::empty()
    } else {
        frames_shapes(nodes, order, frames.drop_last()).add(
            leaf_shapes(nodes, order, frames.last().0, frames.last().1).to_multiset(),
        )
    }
}

/// What a traversal of a hierarchy asks of the ray it follows.
pub trait BvhQuery<T> {
    /// Whether the ray can meet anything inside the box closer than what
    /// it has met so far.
    fn hits_box(&mut self, bounds: &AABB<T>) -> bool;

    /// Whether the ray points towards decreasing coordinates along `axis`.
    fn is_negative(&self, axis: Axis) -> bool;

    /// Tests the shape numbered `shape`, remembering it if it is the
    /// closest one met so far.
    fn test_shape(&mut self, shape: usize);
}

impl<T> Bvh<T> {
    /// The nodes form a single tree whose leaves cover `order` exactly.
    pub open spec fn wf(&self) -> bool {
        &&& wf_subtree(self.nodes@, 0, self.nodes@.len() as int)
        &&& span(self.nodes@, 0, self.nodes@.len() as int) == (0int, self.order@.len() as int)
    }

    /// A workspace with one stack slot for each node, which is as many as
    /// a traversal ever needs.
    pub fn get_workspace(&self) -> (r: Workspace)
        ensures
            r.slots() == self.nodes@.len(),
    {
        let mut v: Vec<usize> = Vec::new();
        let n = self.nodes.len();
        while v.len() < n
            invariant
                v@.len() <= n,
                n == self.nodes@.len(),
            decreases n - v@.len(),
        {
            v.push(0);
        }
        Workspace::BVH(v)
    }

    /// Walks the hierarchy for `query` (see `traverse`) with the stack of
    /// `workspace`, which must have a slot for each node.
    pub fn hit<Q: BvhQuery<T>>(&self, query: &mut Recorder<Q>, workspace: &mut Workspace) -> (visit: Ghost<(Seq<usize>, Seq<(int, int)>)>)
        requires
            self.wf(),
            old(workspace).slots() >= self.nodes@.len(),
        ensures
            final(workspace).slots() == old(workspace).slots(),
            visit@.0.to_multiset().subset_of(self.order@.to_multiset()),
            visit@.1.len() == 0 ==> visit@.0.to_multiset() == self.order@.to_multiset(),
            forall|j: int| 0 <= j < visit@.1.len() ==> wf_subtree(self.nodes@, #[trigger] visit@.1[j].0, visit@.1[j].1),
            visit@.0.to_multiset().add(frames_shapes(self.nodes@, self.order@, visit@.1)) == self.order@.to_multiset(),
            final(query).tested() == old(query).tested() + visit@.0,
            final(query).rejected() == old(query).rejected() + visit@.1.len(),
    {
        match workspace {
            Workspace::BVH(stack) => self.traverse(query, stack),
            Workspace::Void => {
                assert(self.order@ =~= Seq::<usize>::empty());
                assert(Seq::<usize>::empty().to_multiset() =~= Multiset::empty()) by {
                    broadcast use vstd::seq_lib::group_to_multiset_ensures;
                }
                assert(old(query).tested() + Seq::<usize>::empty() =~= old(query).tested());
                Ghost((Seq::empty(), Seq::empty()))
            },
        }
    }

    /// Tests the shapes `order[first .. first + count]`, in that order.
    fn test_leaf_shapes<Q: BvhQuery<T>>(&self, query: &mut Recorder<Q>, first: usize, count: usize) -> (tested: Ghost<Seq<usize>>)
        requires
            first + count <= self.order@.len(),
        ensures
            tested@ == self.order@.subrange(first as int, first + count),
            final(query).tested() == old(query).tested() + tested@,
            final(query).rejected() == old(query).rejected(),
    {
        let m = self.order.len();
        let mut k: usize = 0;
        let ghost mut log: Seq<usize> = Seq::empty();
        assert(old(query).tested() + log =~= old(query).tested());
        while k < count
            invariant
                k <= count,
                first + count <= m,
                m == self.order@.len(),
                log == self.order@.subrange(first as int, first + k),
                query.tested() == old(query).tested() + log,
                query.rejected() == old(query).rejected(),
            decreases count - k,
        {
            query.test_shape(self.order[first + k]);
            proof {
                let prev = log;
                log = log.push(self.order@[first + k]);
                assert(log =~= self.order@.subrange(first as int, first + k + 1));
                assert(old(query).tested() + prev.push(self.order@[first + k]) =~= (old(query).tested() + prev).push(self.order@[first + k]));
            }
            k = k + 1;
        }
        Ghost(log)
    }

    /// Walks the hierarchy depth first for `query`: each node whose box the
    /// ray meets is opened, the shapes of an opened leaf are tested, and of
    /// the children of an opened interior node the one on the side the ray
    /// comes from is visited first. The stack lives in `stack`.
    fn traverse<Q: BvhQuery<T>>(&self, query: &mut Recorder<Q>, stack: &mut Vec<usize>) -> (visit: Ghost<(Seq<usize>, Seq<(int, int)>)>)
        requires
            self.wf(),
            old(stack)@.len() >= self.nodes@.len(),
        ensures
            final(stack)@.len() == old(stack)@.len(),
            visit@.0.to_multiset().subset_of(self.order@.to_multiset()),
            visit@.1.len() == 0 ==> visit@.0.to_multiset() == self.order@.to_multiset(),
            forall|j: int| 0 <= j < visit@.1.len() ==> wf_subtree(self.nodes@, #[trigger] visit@.1[j].0, visit@.1[j].1),
            visit@.0.to_multiset().add(frames_shapes(self.nodes@, self.order@, visit@.1)) == self.order@.to_multiset(),
            final(query).tested() == old(query).tested() + visit@.0,
            final(query).rejected() == old(query).rejected() + visit@.1.len(),
    {
        broadcast use {vstd::multiset::group_multiset_axioms, vstd::seq_lib::lemma_multiset_commutative};
        let n = self.nodes.len();
        if n == 0 {
            assert(self.order@ =~= Seq::<usize>::empty());
            assert(Seq::<usize>::empty().to_multiset() =~= Multiset::empty()) by {
                broadcast use vstd::seq_lib::group_to_multiset_ensures;
            }
            assert(old(query).tested() + Seq::<usize>::empty() =~= old(query).tested());
            return Ghost((Seq::empty(), Seq::empty()));
        }
        let ghost order = self.order@;
        let ghost mut tested: Seq<usize> = Seq::empty();
        let ghost mut pruned_frames: Seq<(int, int)> = Seq::empty();
        let ghost mut pruned_shapes: Multiset<usize> = Multiset::empty();
        let ghost nodes = self.nodes@;
        let m = self.order.len();
        let mut count: usize = 1;
        stack.set(0, 0);
        let ghost mut frames: Seq<(int, int)> = seq![(0int, n as int)];
        assert(frames.drop_last() =~= Seq::<(int, int)>::empty());
        assert(frames_size(Seq::<(int, int)>::empty()) == 0);
        proof {
            broadcast use vstd::seq_lib::group_to_multiset_ensures;
            lemma_leaf_shapes_are_span(nodes, order, 0, n as int);
            assert(order.subrange(0, m as int) =~= order);
            assert(frames_shapes(nodes, order, Seq::<(int, int)>::empty()) == Multiset::<usize>::empty());
            assert(frames.last() == (0int, n as int));
            assert(leaf_shapes(nodes, order, 0, n as int) == order);
            assert(frames_shapes(nodes, order, frames) == Multiset::<usize>::empty().add(order.to_multiset()));
            assert(Multiset::<usize>::empty().add(order.to_multiset()) =~= order.to_multiset());
            assert(Seq::<usize>::empty().to_multiset() =~= Multiset::empty());
            assert(tested.to_multiset().add(frames_shapes(nodes, order, frames)).add(pruned_shapes) =~= order.to_multiset());
            assert(old(query).tested() + tested =~= old(query).tested());
        }
        while count > 0
            invariant
                n == nodes.len(),
                nodes == self.nodes@,
                m == self.order@.len(),
                self.wf(),
                stack@.len() >= n,
                stack@.len() == old(stack)@.len(),
                count == frames.len(),
                forall|j: int| 0 <= j < frames.len() ==> #[trigger] frames[j].0 < frames[j].1,
                forall|j: int|
                    0 <= j < frames.len() ==> wf_subtree(nodes, #[trigger] frames[j].0, frames[j].1),
                forall|j: int| 0 <= j < frames.len() ==> stack@[j] as int == #[trigger] frames[j].0,
                0 <= frames_size(frames) <= n,
                forall|j: int|
                    0 <= j < frames.len() ==> 0 <= #[trigger] span(nodes, frames[j].0, frames[j].1).0
                        && span(nodes, frames[j].0, frames[j].1).1 <= self.order@.len(),
                order == self.order@,
                tested.to_multiset().add(frames_shapes(nodes, order, frames)).add(pruned_shapes) == order.to_multiset(),
                pruned_shapes == frames_shapes(nodes, order, pruned_frames),
                forall|j: int|
                    0 <= j < pruned_frames.len() ==> wf_subtree(nodes, #[trigger] pruned_frames[j].0, pruned_frames[j].1),
                query.tested() == old(query).tested() + tested,
                query.rejected() == old(query).rejected() + pruned_frames.len(),
            decreases frames_size(frames),
        {
            proof {
                lemma_frames_size_bound(frames);
            }
            let ghost before = frames;
            count = count - 1;
            let cur = stack[count];
            let ghost top = frames.last();
            let ghost rest = frames.drop_last();
            proof {
                assert(top == frames[frames.len() - 1]);
                assert(wf_subtree(nodes, top.0, top.1));
                assert(0 <= span(nodes, top.0, top.1).0);
                assert(span(nodes, top.0, top.1).1 <= self.order@.len());
                assert(frames_size(frames) == frames_size(rest) + (top.1 - top.0));
                assert(frames_shapes(nodes, order, frames) == frames_shapes(nodes, order, rest).add(
                    leaf_shapes(nodes, order, top.0, top.1).to_multiset()));
                lemma_span_ordered(nodes, top.0, top.1);
                assert forall|j: int| 0 <= j < rest.len() implies #[trigger] rest[j] == frames[j] by {}
                assert forall|j: int| 0 <= j < rest.len() implies 0 <= #[trigger] span(nodes, rest[j].0, rest[j].1).0
                    && span(nodes, rest[j].0, rest[j].1).1 <= m by {
                    assert(rest[j] == frames[j]);
                    assert(0 <= span(nodes, frames[j].0, frames[j].1).0);
                }
                frames = rest;
            }
            match &self.nodes[cur] {
                BvhNode::Leaf { bounding_box, first, count: shape_count } => {
                    if query.hits_box(bounding_box) {
                        assert(span(nodes, top.0, top.1) == (*first as int, *first + *shape_count));
                        let log = self.test_leaf_shapes(query, *first, *shape_count);
                        proof {
                            assert(log@ == leaf_shapes(nodes, order, top.0, top.1));
                            vstd::seq_lib::lemma_multiset_commutative(tested, log@);
                            assert(old(query).tested() + (tested + log@) =~= (old(query).tested() + tested) + log@);
                            tested = tested + log@;
                        }
                    } else {
                        proof {
                            pruned_shapes = pruned_shapes.add(leaf_shapes(nodes, order, top.0, top.1).to_multiset());
                            let pf = pruned_frames;
                            pruned_frames = pf.push(top);
                            assert(pruned_frames.drop_last() =~= pf);
                            assert(pruned_frames.last() == top);
                            assert forall|j: int| 0 <= j < pruned_frames.len() implies wf_subtree(
                                nodes,
                                #[trigger] pruned_frames[j].0,
                                pruned_frames[j].1,
                            ) by {
                                if j < pf.len() {
                                    assert(pruned_frames[j] == pf[j]);
                                }
                            }
                        }
                    }
                },
                BvhNode::Interior { bounding_box, cut_axis, right_offset } => {
                    if query.hits_box(bounding_box) {
                        let left = cur + 1;
                        let right = cur + *right_offset;
                        assert(cur == top.0);
                        let ghost lf = (top.0 + 1, top.0 + *right_offset as int);
                        let ghost rf = (top.0 + *right_offset as int, top.1);
                        // The child pushed last is visited first: the left
                        // one (lower along the cut axis) when the ray goes
                        // up that axis, the right one when it goes down.
                        let (first_pushed, second_pushed) = if query.is_negative(*cut_axis) {
                            (left, right)
                        } else {
                            (right, left)
                        };
                        let ghost f1 = if first_pushed == right { rf } else { lf };
                        let ghost f2 = if first_pushed == right { lf } else { rf };
                        let ghost next = frames.push(f1).push(f2);
                        proof {
                            lemma_span_ordered(nodes, lf.0, lf.1);
                            lemma_span_ordered(nodes, rf.0, rf.1);
                            assert(next.drop_last() =~= frames.push(f1));
                            assert(frames.push(f1).drop_last() =~= frames);
                            assert(frames_size(frames.push(f1)) == frames_size(frames) + (f1.1 - f1.0));
                            assert(frames_size(next) == frames_size(frames.push(f1)) + (f2.1 - f2.0));
                            assert(frames_size(next) == frames_size(frames) + (top.1 - top.0) - 1);
                            assert forall|j: int| 0 <= j < next.len() implies #[trigger] next[j].0 < next[j].1 by {
                                if j < frames.len() {
                                    assert(next[j] == frames[j]);
                                } else if j == frames.len() {
                                    assert(next[j] == f1);
                                } else {
                                    assert(next[j] == f2);
                                }
                            }
                            lemma_frames_size_bound(next);
                            assert(span(nodes, top.0, top.1) == (span(nodes, lf.0, lf.1).0, span(nodes, rf.0, rf.1).1));
                            assert(span(nodes, lf.0, lf.1).1 == span(nodes, rf.0, rf.1).0);
                            assert(0 <= span(nodes, lf.0, lf.1).0);
                            assert(span(nodes, rf.0, rf.1).1 <= m);
                            assert(0 <= span(nodes, f1.0, f1.1).0 && span(nodes, f1.0, f1.1).1 <= m);
                            assert(0 <= span(nodes, f2.0, f2.1).0 && span(nodes, f2.0, f2.1).1 <= m);
                            assert forall|j: int| 0 <= j < next.len() implies 0 <= #[trigger] span(nodes, next[j].0, next[j].1).0
                                && span(nodes, next[j].0, next[j].1).1 <= m by {
                                if j < frames.len() {
                                    assert(next[j] == frames[j]);
                                    assert(0 <= span(nodes, frames[j].0, frames[j].1).0);
                                } else if j == frames.len() {
                                    assert(next[j] == f1);
                                } else {
                                    assert(next[j] == f2);
                                }
                            }
                        }
                        proof {
                            assert(leaf_shapes(nodes, order, top.0, top.1) == leaf_shapes(nodes, order, lf.0, lf.1)
                                + leaf_shapes(nodes, order, rf.0, rf.1));
                            vstd::seq_lib::lemma_multiset_commutative(
                                leaf_shapes(nodes, order, lf.0, lf.1),
                                leaf_shapes(nodes, order, rf.0, rf.1),
                            );
                            assert(next.last() == f2);
                            assert(frames.push(f1).last() == f1);
                            assert(frames_shapes(nodes, order, frames.push(f1)) == frames_shapes(nodes, order, frames).add(
                                leaf_shapes(nodes, order, f1.0, f1.1).to_multiset()));
                            assert(frames_shapes(nodes, order, next) == frames_shapes(nodes, order, frames.push(f1)).add(
                                leaf_shapes(nodes, order, f2.0, f2.1).to_multiset()));
                            assert(frames_shapes(nodes, order, next) =~= frames_shapes(nodes, order, frames).add(
                                leaf_shapes(nodes, order, top.0, top.1).to_multiset()));
                        }
                        stack.set(count, first_pushed);
                        stack.set(count + 1, second_pushed);
                        count = count + 2;
                        proof {
                            frames = next;
                        }
                    } else {
                        proof {
                            pruned_shapes = pruned_shapes.add(leaf_shapes(nodes, order, top.0, top.1).to_multiset());
                            let pf = pruned_frames;
                            pruned_frames = pf.push(top);
                            assert(pruned_frames.drop_last() =~= pf);
                            assert(pruned_frames.last() == top);
                            assert forall|j: int| 0 <= j < pruned_frames.len() implies wf_subtree(
                                nodes,
                                #[trigger] pruned_frames[j].0,
                                pruned_frames[j].1,
                            ) by {
                                if j < pf.len() {
                                    assert(pruned_frames[j] == pf[j]);
                                }
                            }
                        }
                    }
                },
            }
            proof {
                lemma_frames_size_bound(frames);
                assert(tested.to_multiset().add(frames_shapes(nodes, order, frames)).add(pruned_shapes) =~= order.to_multiset());
            }
        }
        proof {
            assert(frames_shapes(nodes, order, frames) == Multiset::<usize>::empty());
            assert(tested.to_multiset().add(Multiset::empty()).add(pruned_shapes) =~= tested.to_multiset().add(pruned_shapes));
        }
        Ghost((tested, pruned_frames))
    }
}

} // verus!
