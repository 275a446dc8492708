//! Shape of a bounding-volume hierarchy over a list of objects: the median
//! split of each range of positions, laid out in pre-order.
//!
//! The layout depends only on the number of objects. The caller sorts the
//! positions `start..end` of each node with three or more objects along that
//! node's longest axis, visiting nodes in index order, so that a parent's range
//! is sorted before its children's; a leaf then names the object at a position.
use vstd::arithmetic::power2::{lemma2_to64, lemma_pow2_unfold, pow2};
use vstd::prelude::*;

verus! {

/// One child of a hierarchy node.
#[derive(Clone, Copy, Debug, PartialEq, Eq, Structural)]
pub enum BvhChild {
    /// The object at this position of the (sorted) object list.
    Object(usize),
    /// The node at this index of the layout.
    Node(usize),
}

/// A hierarchy node over the object positions `start..end`.
#[derive(Clone, Copy, Debug, PartialEq, Eq, Structural)]
pub struct BvhSplit {
    pub start: usize,
    pub end: usize,
    pub left: BvhChild,
    pub right: Option<BvhChild>,
}

/// Where a range of `span >= 3` positions starting at `start` is split.
pub open spec fn median(start: int, span: int) -> int {
    start + span / 2
}

/// Node `k` of `nodes` follows the split rule: one position gives a single object
/// leaf; two give two object leaves; more give two child nodes, placed after `k`,
/// over the halves either side of the median.
pub open spec fn node_ok(nodes: Seq<BvhSplit>, k: int) -> bool {
    let s = nodes[k];
    let span = s.end - s.start;
    &&& s.start < s.end
    &&& if span == 1 {
        s.left == BvhChild::Object(s.start) && s.right == None::<BvhChild>
    } else if span == 2 {
        s.left == BvhChild::Object(s.start) && s.right == Some(BvhChild::Object((s.start + 1) as usize))
    } else {
        match (s.left, s.right) {
            (BvhChild::Node(l), Some(BvhChild::Node(r))) => {
                &&& k < l < nodes.len()
                &&& k < r < nodes.len()
                &&& nodes[l as int].start == s.start
                &&& nodes[l as int].end == median(s.start as int, span)
                &&& nodes[r as int].start == median(s.start as int, span)
                &&& nodes[r as int].end == s.end
            },
            _ => false,
        }
    }
}

/// `nodes` is the layout of a hierarchy over `n` objects: empty when there are none,
/// else rooted at index 0 over all positions, every node following the split rule.
pub open spec fn is_layout(nodes: Seq<BvhSplit>, n: nat) -> bool {
    &&& n == 0 ==> nodes.len() == 0
    &&& n > 0 ==> {
        &&& nodes.len() > 0
        &&& nodes[0].start == 0
        &&& nodes[0].end == n
    }
    &&& forall|k: int| 0 <= k < nodes.len() ==> #[trigger] node_ok(nodes, k)
}

/// The object positions reached from node `k`, left subtree first.
pub open spec fn leaves_under(nodes: Seq<BvhSplit>, k: int) -> Seq<int>
    decreases nodes.len() - k,
{
    if 0 <= k < nodes.len() {
        let left = match nodes[k].left {
            BvhChild::Object(i) => seq![i as int],
            BvhChild::Node(l) => if k < l < nodes.len() {
                leaves_under(nodes, l as int)
            } else {
                Seq::empty()
            },
        };
        let right = match nodes[k].right {
            Some(BvhChild::Object(i)) => seq![i as int],
            Some(BvhChild::Node(r)) => if k < r < nodes.len() {
                leaves_under(nodes, r as int)
            } else {
                Seq::empty()
            },
            None => Seq::empty(),
        };
        left + right
    } else {
        Seq::empty()
    }
}

/// The positions `start..end` in increasing order.
pub open spec fn positions(start: int, end: int) -> Seq<int> {
    Seq::new((end - start) as nat, |i: int| start + i)
}

/// Node `m` keeps following the split rule when every entry from `m` on is kept.
proof fn lemma_node_ok_frame(a: Seq<BvhSplit>, b: Seq<BvhSplit>, m: int)
    requires
        0 <= m < a.len(),
        node_ok(a, m),
        a.len() <= b.len(),
        forall|i: int| m <= i < a.len() ==> b[i] == a[i],
    ensures
        node_ok(b, m),
{
}

/// Appends the nodes of the hierarchy over `start..end` to `nodes`, its root first,
/// and returns the root's index.
fn build_node(nodes: &mut Vec<BvhSplit>, start: usize, end: usize) -> (k: usize)
    requires
        start < end,
    ensures
        k == old(nodes)@.len(),
        final(nodes)@.len() > k,
        forall|i: int| 0 <= i < k ==> final(nodes)@[i] == old(nodes)@[i],
        final(nodes)@[k as int].start == start,
        final(nodes)@[k as int].end == end,
        forall|m: int| k <= m < final(nodes)@.len() ==> #[trigger] node_ok(final(nodes)@, m),
    decreases end - start,
{
    let k: usize = nodes.len();
    let span: usize = end - start;
    if span == 1 {
        nodes.push(BvhSplit { start, end, left: BvhChild::Object(start), right: None });
        assert(node_ok(nodes@, k as int));
        return k;
    }
    if span == 2 {
        nodes.push(
            BvhSplit {
                start,
                end,
                left: BvhChild::Object(start),
                right: Some(BvhChild::Object(start + 1)),
            },
        );
        assert(node_ok(nodes@, k as int));
        return k;
    }
    nodes.push(BvhSplit { start, end, left: BvhChild::Object(start), right: None });
    let mid: usize = start + span / 2;
    let l: usize = build_node(nodes, start, mid);
    let ghost after_left = nodes@;
    let r: usize = build_node(nodes, mid, end);
    let ghost after_right = nodes@;
    assert forall|m: int| l <= m < r implies #[trigger] node_ok(after_right, m) by {
        lemma_node_ok_frame(after_left, after_right, m);
    }
    nodes.set(k, BvhSplit { start, end, left: BvhChild::Node(l), right: Some(BvhChild::Node(r)) });
    assert forall|m: int| k < m < nodes@.len() implies #[trigger] node_ok(nodes@, m) by {
        lemma_node_ok_frame(after_right, nodes@, m);
    }
    assert(node_ok(nodes@, k as int));
    k
}

/// The leaves under node `k` of a layout are the positions of its range, each once
/// and in increasing order.
proof fn lemma_leaves_of_node(nodes: Seq<BvhSplit>, k: int)
    requires
        0 <= k < nodes.len(),
        forall|m: int| 0 <= m < nodes.len() ==> #[trigger] node_ok(nodes, m),
    ensures
        leaves_under(nodes, k) == positions(nodes[k].start as int, nodes[k].end as int),
    decreases nodes.len() - k,
{
    assert(node_ok(nodes, k));
    let s = nodes[k];
    let span = s.end - s.start;
    if span == 1 {
        assert(leaves_under(nodes, k) =~= positions(s.start as int, s.end as int));
    } else if span == 2 {
        assert(leaves_under(nodes, k) =~= positions(s.start as int, s.end as int));
    } else {
        match (s.left, s.right) {
            (BvhChild::Node(l), Some(BvhChild::Node(r))) => {
                lemma_leaves_of_node(nodes, l as int);
                lemma_leaves_of_node(nodes, r as int);
                let mid = median(s.start as int, span);
                assert(positions(s.start as int, mid) + positions(mid, s.end as int) =~= positions(
                    s.start as int,
                    s.end as int,
                ));
            },
            _ => {},
        }
    }
}

/// The leaves of a hierarchy layout over `n > 0` objects name every object position
/// exactly once, in order: a nearest-hit search down the tree tests the same objects
/// as a scan of the whole list.
pub proof fn lemma_leaves_cover_objects(nodes: Seq<BvhSplit>, n: nat)
    requires
        is_layout(nodes, n),
        n > 0,
    ensures
        leaves_under(nodes, 0) == positions(0, n as int),
{
    lemma_leaves_of_node(nodes, 0);
}

/// Number of node levels on the longest path down from node `k` (1 for a node whose
/// children are both objects).
pub open spec fn levels(nodes: Seq<BvhSplit>, k: int) -> nat
    decreases nodes.len() - k,
{
    if 0 <= k < nodes.len() {
        let left: nat = match nodes[k].left {
            BvhChild::Node(l) => if k < l < nodes.len() {
                levels(nodes, l as int)
            } else {
                0
            },
            BvhChild::Object(_) => 0,
        };
        let right: nat = match nodes[k].right {
            Some(BvhChild::Node(r)) => if k < r < nodes.len() {
                levels(nodes, r as int)
            } else {
                0
            },
            _ => 0,
        };
        1 + if left >= right {
            left
        } else {
            right
        }
    } else {
        0
    }
}

/// A node over at most `2^h` positions, `h >= 1`, has at most `h` levels.
proof fn lemma_levels_of_node(nodes: Seq<BvhSplit>, k: int, h: nat)
    requires
        0 <= k < nodes.len(),
        forall|m: int| 0 <= m < nodes.len() ==> #[trigger] node_ok(nodes, m),
        h >= 1,
        nodes[k].end - nodes[k].start <= pow2(h),
    ensures
        levels(nodes, k) <= h,
    decreases nodes.len() - k,
{
    assert(node_ok(nodes, k));
    let s = nodes[k];
    let span = s.end - s.start;
    if span >= 3 {
        lemma_pow2_unfold(h);
        if h == 1 {
            lemma2_to64();
            assert(false);
        }
        match (s.left, s.right) {
            (BvhChild::Node(l), Some(BvhChild::Node(r))) => {
                lemma_levels_of_node(nodes, l as int, (h - 1) as nat);
                lemma_levels_of_node(nodes, r as int, (h - 1) as nat);
            },
            _ => {},
        }
    }
}

/// The median split keeps the hierarchy balanced: over `n` objects with
/// `2 <= n <= 2^h`, no path from the root passes more than `h` nodes.
pub proof fn lemma_layout_is_balanced(nodes: Seq<BvhSplit>, n: nat, h: nat)
    requires
        is_layout(nodes, n),
        2 <= n <= pow2(h),
    ensures
        levels(nodes, 0) <= h,
{
    if h == 0 {
        assert(pow2(0) == 1) by {
            lemma2_to64();
        }
    }
    lemma_levels_of_node(nodes, 0, h);
}

/// The split layout of a bounding-volume hierarchy over a list of objects.
pub struct BvhLayout {
    nodes: Vec<BvhSplit>,
    object_count: usize,
}

impl View for BvhLayout {
    type V = Seq<BvhSplit>;

    closed spec fn view(&self) -> Seq<BvhSplit> {
        self.nodes@
    }
}

impl BvhLayout {
    /// The number of objects the layout was built over.
    pub closed spec fn objects(&self) -> nat {
        self.object_count as nat
    }

    #[verifier::type_invariant]
    spec fn well_formed(self) -> bool {
        is_layout(self.nodes@, self.object_count as nat)
    }

    /// The layout over `object_count` objects: the root covers them all, and each
    /// node of three or more objects is split at its median.
    pub fn new(object_count: usize) -> (r: BvhLayout)
        ensures
            r.objects() == object_count,
            is_layout(r@, object_count as nat),
    {
        let mut nodes: Vec<BvhSplit> = Vec::new();
        if object_count > 0 {
            build_node(&mut nodes, 0, object_count);
        }
        BvhLayout { nodes, object_count }
    }

    /// The number of nodes.
    pub fn len(&self) -> (r: usize)
        ensures
            r == self@.len(),
    {
        self.nodes.len()
    }

    /// Node `k`; the root is node 0 and children come after their parent.
    pub fn node(&self, k: usize) -> (r: BvhSplit)
        requires
            k < self@.len(),
        ensures
            r == self@[k as int],
    {
        self.nodes[k]
    }
}

} // verus!
