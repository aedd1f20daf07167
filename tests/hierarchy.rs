use raytracer::aggregate::{Bvh, BvhNode, BvhQuery, Workspace};
use raytracer::axis::Axis;
use raytracer::base::BasicThreeTuple;
use raytracer::bounds::AABB;
use raytracer::construct::{new_bvh, split_point, SplitHeuristic};
use raytracer::record::Recorder;

fn t3(x: i64, y: i64, z: i64) -> BasicThreeTuple<i64> {
    BasicThreeTuple::new(x, y, z)
}

fn cube(x: i64, y: i64, z: i64, size: i64) -> AABB<i64> {
    AABB::new(t3(x, y, z), t3(x + size, y + size, z + size))
}

/// Integer boxes; centres are kept doubled so that they stay integers.
struct IntBoxes {
    boxes: Vec<AABB<i64>>,
}

impl IntBoxes {
    fn centre2(&self, s: usize, axis: Axis) -> i64 {
        let b = &self.boxes[s];
        b.min.get(axis) + b.max.get(axis)
    }

    fn area(b: &AABB<i64>) -> f64 {
        let dx = (b.max.x - b.min.x) as f64;
        let dy = (b.max.y - b.min.y) as f64;
        let dz = (b.max.z - b.min.z) as f64;
        2.0 * (dx * dy + dx * dz + dy * dz)
    }
}

impl SplitHeuristic for IntBoxes {
    fn cut_axis(&self, order: &Vec<usize>, lo: usize, hi: usize) -> Option<Axis> {
        let mut best = None;
        let mut best_extent = 0;
        for axis in [Axis::X, Axis::Y, Axis::Z] {
            let cs: Vec<i64> = order[lo..hi].iter().map(|&s| self.centre2(s, axis)).collect();
            let extent = cs.iter().max().unwrap() - cs.iter().min().unwrap();
            if extent > best_extent {
                best_extent = extent;
                best = Some(axis);
            }
        }
        best
    }

    fn centroid_before(&self, a: usize, b: usize, axis: Axis) -> bool {
        self.centre2(a, axis) < self.centre2(b, axis)
    }

    fn split_count(&self, order: &Vec<usize>, lo: usize, hi: usize) -> Option<usize> {
        let n = hi - lo;
        let total = order[lo + 1..hi]
            .iter()
            .fold(self.boxes[order[lo]], |b, &s| AABB::union(&b, &self.boxes[s]));
        let mut best: Option<(f64, usize)> = None;
        for k in 1..n {
            let left = order[lo + 1..lo + k]
                .iter()
                .fold(self.boxes[order[lo]], |b, &s| AABB::union(&b, &self.boxes[s]));
            let right = order[lo + k + 1..hi]
                .iter()
                .fold(self.boxes[order[lo + k]], |b, &s| AABB::union(&b, &self.boxes[s]));
            let cost = 1.0
                + Self::area(&left) / Self::area(&total) * k as f64
                + Self::area(&right) / Self::area(&total) * (n - k) as f64;
            if best.map_or(true, |(c, _)| cost < c) {
                best = Some((cost, k));
            }
        }
        match best {
            Some((c, k)) if c < n as f64 => Some(k),
            _ => None,
        }
    }
}

/// Looks for the boxes that hold a point.
struct PointQuery<'a> {
    point: BasicThreeTuple<i64>,
    boxes: &'a Vec<AABB<i64>>,
    found: Vec<usize>,
    tested: Vec<usize>,
}

fn holds(b: &AABB<i64>, p: &BasicThreeTuple<i64>) -> bool {
    b.min.x <= p.x && p.x <= b.max.x && b.min.y <= p.y && p.y <= b.max.y && b.min.z <= p.z
        && p.z <= b.max.z
}

impl<'a> BvhQuery<i64> for PointQuery<'a> {
    fn hits_box(&mut self, bounds: &AABB<i64>) -> bool {
        holds(bounds, &self.point)
    }

    fn is_negative(&self, _axis: Axis) -> bool {
        false
    }

    fn test_shape(&mut self, shape: usize) {
        self.tested.push(shape);
        if holds(&self.boxes[shape], &self.point) {
            self.found.push(shape);
        }
    }
}

/// Accepts every box and records the shapes in the order it meets them.
struct Everything {
    negative: bool,
    tested: Vec<usize>,
}

impl BvhQuery<i64> for Everything {
    fn hits_box(&mut self, _bounds: &AABB<i64>) -> bool {
        true
    }

    fn is_negative(&self, _axis: Axis) -> bool {
        self.negative
    }

    fn test_shape(&mut self, shape: usize) {
        self.tested.push(shape);
    }
}

fn run<Q: BvhQuery<i64>>(bvh: &Bvh<i64>, query: Q, ws: &mut Workspace) -> Q {
    let mut recorder = Recorder::new(query);
    bvh.hit(&mut recorder, ws);
    recorder.into_inner()
}

fn grid_boxes(n: i64) -> Vec<AABB<i64>> {
    let mut v = Vec::new();
    for i in 0..n {
        v.push(cube((i * 7) % 23 * 3, (i * 5) % 17 * 3, (i * 11) % 13 * 3, 2));
    }
    v
}

fn check_layout(bvh: &Bvh<i64>, n: usize) {
    let mut seen = vec![0usize; n];
    for s in &bvh.order {
        seen[*s] += 1;
    }
    assert!(seen.iter().all(|&c| c == 1));
    for (i, node) in bvh.nodes.iter().enumerate() {
        if let BvhNode::Interior { bounding_box, right_offset, .. } = node {
            assert!(*right_offset >= 2);
            for child in [i + 1, i + right_offset] {
                let cb = bvh.nodes[child].bounding_box();
                assert!(bounding_box.min.x <= cb.min.x && cb.max.x <= bounding_box.max.x);
                assert!(bounding_box.min.y <= cb.min.y && cb.max.y <= bounding_box.max.y);
                assert!(bounding_box.min.z <= cb.min.z && cb.max.z <= bounding_box.max.z);
            }
        }
    }
}

#[test]
fn bvh_of_no_shapes_is_one_empty_leaf() {
    let boxes: Vec<AABB<i64>> = Vec::new();
    let h = IntBoxes { boxes: boxes.clone() };
    let bvh = new_bvh(&boxes, cube(0, 0, 0, 0), &h);
    assert_eq!(bvh.nodes.len(), 1);
    assert!(matches!(bvh.nodes[0], BvhNode::Leaf { first: 0, count: 0, .. }));
    let mut ws = bvh.get_workspace();
    let q = Everything { negative: false, tested: Vec::new() };
    let q = run(&bvh, q, &mut ws);
    assert!(q.tested.is_empty());
}

#[test]
fn bvh_of_two_shapes_is_a_leaf() {
    let boxes = vec![cube(0, 0, 0, 1), cube(10, 0, 0, 1)];
    let h = IntBoxes { boxes: boxes.clone() };
    let bvh = new_bvh(&boxes, cube(0, 0, 0, 0), &h);
    assert_eq!(bvh.nodes.len(), 1);
    let b = bvh.nodes[0].bounding_box();
    assert_eq!((b.min.x, b.max.x), (0, 11));
}

#[test]
fn bvh_splits_separated_groups() {
    let boxes = vec![
        cube(0, 0, 0, 1),
        cube(100, 0, 0, 1),
        cube(1, 0, 0, 1),
        cube(101, 0, 0, 1),
        cube(2, 0, 0, 1),
        cube(102, 0, 0, 1),
    ];
    let h = IntBoxes { boxes: boxes.clone() };
    let bvh = new_bvh(&boxes, cube(0, 0, 0, 0), &h);
    assert!(matches!(bvh.nodes[0], BvhNode::Interior { cut_axis: Axis::X, .. }));
    check_layout(&bvh, boxes.len());
    let mut left: Vec<usize> = bvh.order[0..3].to_vec();
    left.sort();
    assert_eq!(left, vec![0, 2, 4]);
}

#[test]
fn bvh_covers_every_shape_once() {
    let boxes = grid_boxes(200);
    let h = IntBoxes { boxes: boxes.clone() };
    let bvh = new_bvh(&boxes, cube(0, 0, 0, 0), &h);
    check_layout(&bvh, boxes.len());
    let mut ws = bvh.get_workspace();
    for negative in [false, true] {
        let q = Everything { negative, tested: Vec::new() };
        let q = run(&bvh, q, &mut ws);
        let mut t = q.tested.clone();
        t.sort();
        assert_eq!(t, (0..200).collect::<Vec<usize>>());
    }
}

#[test]
fn bvh_visits_the_near_child_first() {
    let boxes = grid_boxes(64);
    let h = IntBoxes { boxes: boxes.clone() };
    let bvh = new_bvh(&boxes, cube(0, 0, 0, 0), &h);
    let mut ws = bvh.get_workspace();
    let up = Everything { negative: false, tested: Vec::new() };
    let up = run(&bvh, up, &mut ws);
    assert_eq!(up.tested, bvh.order);
    let down = Everything { negative: true, tested: Vec::new() };
    let down = run(&bvh, down, &mut ws);
    assert_ne!(down.tested, bvh.order);
    match bvh.nodes[bvh.nodes.len() - 1] {
        BvhNode::Leaf { first, count, .. } => {
            assert_eq!(&down.tested[0..count], &bvh.order[first..first + count]);
        }
        BvhNode::Interior { .. } => panic!("the last node of a pre-order layout is a leaf"),
    }
}

#[test]
fn bvh_point_query_agrees_with_linear_scan() {
    let boxes = grid_boxes(300);
    let h = IntBoxes { boxes: boxes.clone() };
    let bvh = new_bvh(&boxes, cube(0, 0, 0, 0), &h);
    let mut ws = bvh.get_workspace();
    for p in 0..100i64 {
        let point = t3((p * 13) % 70, (p * 29) % 50, (p * 31) % 40);
        let q = PointQuery { point, boxes: &boxes, found: Vec::new(), tested: Vec::new() };
        let q = run(&bvh, q, &mut ws);
        let mut found = q.found.clone();
        found.sort();
        let scan: Vec<usize> = (0..boxes.len()).filter(|&s| holds(&boxes[s], &point)).collect();
        assert_eq!(found, scan);
        assert!(q.tested.len() <= boxes.len());
    }
}

#[test]
fn workspace_has_a_slot_per_node() {
    let boxes = grid_boxes(50);
    let h = IntBoxes { boxes: boxes.clone() };
    let bvh = new_bvh(&boxes, cube(0, 0, 0, 0), &h);
    match bvh.get_workspace() {
        Workspace::BVH(v) => assert_eq!(v.len(), bvh.nodes.len()),
        Workspace::Void => panic!("expected a stack"),
    }
}

#[test]
fn split_point_keeps_both_sides_non_empty() {
    assert_eq!(split_point(4, 10, Some(3)), Some(7));
    assert_eq!(split_point(4, 10, Some(5)), Some(9));
    assert_eq!(split_point(4, 10, Some(0)), None);
    assert_eq!(split_point(4, 10, Some(6)), None);
    assert_eq!(split_point(4, 10, None), None);
    assert_eq!(split_point(4, 4, Some(1)), None);
}
