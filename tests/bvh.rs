use raytracer::bvh::{BvhChild, BvhLayout, BvhSplit};

fn leaves(layout: &BvhLayout, k: usize, out: &mut Vec<usize>) {
    let node = layout.node(k);
    for child in [Some(node.left), node.right].into_iter().flatten() {
        match child {
            BvhChild::Object(i) => out.push(i),
            BvhChild::Node(c) => {
                assert!(c > k);
                leaves(layout, c, out);
            }
        }
    }
}

#[test]
fn empty_layout_has_no_nodes() {
    assert_eq!(BvhLayout::new(0).len(), 0);
}

#[test]
fn single_object_is_one_leaf() {
    let layout = BvhLayout::new(1);
    assert_eq!(layout.len(), 1);
    assert_eq!(
        layout.node(0),
        BvhSplit { start: 0, end: 1, left: BvhChild::Object(0), right: None }
    );
}

#[test]
fn two_objects_are_direct_leaves() {
    let layout = BvhLayout::new(2);
    assert_eq!(layout.len(), 1);
    assert_eq!(
        layout.node(0),
        BvhSplit { start: 0, end: 2, left: BvhChild::Object(0), right: Some(BvhChild::Object(1)) }
    );
}

#[test]
fn five_objects_split_at_median() {
    let layout = BvhLayout::new(5);
    let root = layout.node(0);
    assert_eq!((root.start, root.end), (0, 5));
    let (l, r) = match (root.left, root.right) {
        (BvhChild::Node(l), Some(BvhChild::Node(r))) => (l, r),
        other => panic!("unexpected root children {:?}", other),
    };
    assert_eq!((layout.node(l).start, layout.node(l).end), (0, 2));
    assert_eq!((layout.node(r).start, layout.node(r).end), (2, 5));
    assert_eq!(l, 1);
}

#[test]
fn leaves_cover_each_object_once() {
    for n in [1usize, 2, 3, 4, 7, 16, 33, 100] {
        let layout = BvhLayout::new(n);
        let mut out = Vec::new();
        leaves(&layout, 0, &mut out);
        assert_eq!(out, (0..n).collect::<Vec<_>>());
    }
}

fn levels(layout: &BvhLayout, k: usize) -> usize {
    let node = layout.node(k);
    let below = |c: Option<BvhChild>| match c {
        Some(BvhChild::Node(n)) => levels(layout, n),
        _ => 0,
    };
    1 + below(Some(node.left)).max(below(node.right))
}

#[test]
fn layout_depth_is_logarithmic() {
    assert_eq!(levels(&BvhLayout::new(2), 0), 1);
    assert_eq!(levels(&BvhLayout::new(3), 0), 2);
    assert_eq!(levels(&BvhLayout::new(4), 0), 2);
    assert_eq!(levels(&BvhLayout::new(5), 0), 3);
    assert!(levels(&BvhLayout::new(100), 0) <= 7);
    assert!(levels(&BvhLayout::new(1024), 0) <= 10);
}
