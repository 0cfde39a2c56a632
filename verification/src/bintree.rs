//! A height-balanced binary search tree over machine integers: insertion
//! keeps the search ordering, single rotations bound the imbalance, and every
//! node carries its own height.
//!
//! The tree's contents are abstracted as a multiset; well-formedness says the
//! stored heights are exact and the search ordering holds everywhere. Values
//! equal to a node's go to its right, so the ordering bounds a node's left
//! subtree at or below it and its right subtree at or above it.
use vstd::prelude::*;

use vstd::multiset::Multiset;

verus! {

/// The rebalancing step an insertion asks for.
pub enum RotationDirection {
    Left,
    Right,
    NoRotation,
}

/// A possibly empty binary search tree.
#[derive(Debug)]
pub struct BinTree(Option<Box<BinData>>);

/// One node: a value, the node's height (the longest count of nodes from it
/// downward), and two subtrees.
#[derive(Debug)]
pub struct BinData {
    data: i64,
    h: i8,
    left: BinTree,
    right: BinTree,
}

impl BinTree {
    /// The number of nodes on the longest downward path.
    pub closed spec fn spec_height(self) -> int
        decreases self,
    {
        match self.0 {
            None => 0,
            Some(b) => 1 + (if b.left.spec_height() >= b.right.spec_height() {
                b.left.spec_height()
            } else {
                b.right.spec_height()
            }),
        }
    }

    /// Every node's stored height equals its true height.
    pub closed spec fn hgt_ok(self) -> bool
        decreases self,
    {
        match self.0 {
            None => true,
            Some(b) => b.left.hgt_ok() && b.right.hgt_ok() && b.h as int == self.spec_height(),
        }
    }

    /// The values the tree holds, with multiplicity.
    pub closed spec fn as_mset(self) -> Multiset<i64>
        decreases self,
    {
        match self.0 {
            None => Multiset::empty(),
            Some(b) => b.left.as_mset().add(b.right.as_mset()).insert(b.data),
        }
    }

    /// The search ordering: at every node, the left subtree's values lie at
    /// or below the node's and the right subtree's at or above it.
    pub closed spec fn is_bst(self) -> bool
        decreases self,
    {
        match self.0 {
            None => true,
            Some(b) => b.left.is_bst() && b.right.is_bst() && (forall|x: i64|
                b.left.as_mset().count(x) > 0 ==> x <= b.data) && (forall|x: i64|
                b.right.as_mset().count(x) > 0 ==> x >= b.data),
        }
    }

    /// A meaningful tree: exact stored heights and the search ordering.
    pub closed spec fn well_formed(self) -> bool {
        self.hgt_ok() && self.is_bst()
    }

    /// Whether the tree holds no values.
    pub closed spec fn spec_is_empty(self) -> bool {
        self.0 is None
    }

    /// The conditions under which a right rotation of the root rebalances:
    /// both subtrees well-formed and ordered around the root, and the left
    /// side outgrowing the right by at least two within the recount bound.
    pub closed spec fn rot_right_pre(self) -> bool {
        match self.0 {
            None => true,
            Some(b) => b.left.well_formed() && b.right.well_formed() && (forall|x: i64|
                b.left.as_mset().count(x) > 0 ==> x <= b.data) && (forall|x: i64|
                b.right.as_mset().count(x) > 0 ==> x >= b.data) && b.left.spec_height() <= 126
                && b.right.spec_height() + 2 <= b.left.spec_height(),
        }
    }

    /// The mirror conditions for a left rotation of the root.
    pub closed spec fn rot_left_pre(self) -> bool {
        match self.0 {
            None => true,
            Some(b) => b.left.well_formed() && b.right.well_formed() && (forall|x: i64|
                b.left.as_mset().count(x) > 0 ==> x <= b.data) && (forall|x: i64|
                b.right.as_mset().count(x) > 0 ==> x >= b.data) && b.right.spec_height() <= 126
                && b.left.spec_height() + 2 <= b.right.spec_height(),
        }
    }

    /// The root's children have exact stored heights small enough to recount
    /// the root's own.
    pub closed spec fn set_height_pre(self) -> bool {
        match self.0 {
            None => true,
            Some(b) => b.left.hgt_ok() && b.right.hgt_ok() && b.left.spec_height() <= 126
                && b.right.spec_height() <= 126,
        }
    }

    /// Whether the root's left subtree is present (a right rotation has a
    /// node to hoist).
    pub closed spec fn root_left_nonempty(self) -> bool {
        match self.0 {
            None => false,
            Some(b) => b.left.0 is Some,
        }
    }

    /// Whether the root's right subtree is present (a left rotation has a
    /// node to hoist).
    pub closed spec fn root_right_nonempty(self) -> bool {
        match self.0 {
            None => false,
            Some(b) => b.right.0 is Some,
        }
    }

    /// The height of the root's left subtree, zero for the empty tree.
    pub closed spec fn root_left_height(self) -> int {
        match self.0 {
            None => 0,
            Some(b) => b.left.spec_height(),
        }
    }

    /// The height of the root's right subtree, zero for the empty tree.
    pub closed spec fn root_right_height(self) -> int {
        match self.0 {
            None => 0,
            Some(b) => b.right.spec_height(),
        }
    }

    /// The empty tree.
    pub fn new() -> (r: Self)
        ensures
            r.well_formed(),
            r.as_mset() == Multiset::<i64>::empty(),
            r.spec_height() == 0,
            r.spec_is_empty(),
    {
        BinTree(None)
    }

    /// The stored height of the root, or zero for the empty tree.
    pub fn height(&self) -> (r: i8)
        requires
            self.hgt_ok(),
        ensures
            r as int == self.spec_height(),
    {
        match self.0 {
            Some(ref t) => t.h,
            None => 0,
        }
    }

    /// Recounts the root's stored height from its children's.
    pub fn set_height(&mut self)
        requires
            old(self).set_height_pre(),
        ensures
            final(self).hgt_ok(),
            final(self).as_mset() == old(self).as_mset(),
            final(self).is_bst() == old(self).is_bst(),
            final(self).spec_height() == old(self).spec_height(),
            final(self).spec_is_empty() <==> old(self).spec_is_empty(),
    {
        match self.0.take() {
            None => {},
            Some(mut t) => {
                let hl = t.left.height();
                let hr = t.right.height();
                t.h = 1 + (if hl >= hr {
                    hl
                } else {
                    hr
                });
                self.0 = Some(t);
            },
        }
    }

    /// Hoists the root's left child to the root, preserving the contents and
    /// the ordering and recounting the affected heights.
    pub fn rot_right(&mut self)
        requires
            old(self).rot_right_pre(),
            old(self).root_left_nonempty(),
        ensures
            final(self).as_mset() == old(self).as_mset(),
            final(self).well_formed(),
            final(self).spec_height() <= 1 + old(self).root_left_height(),
            !final(self).spec_is_empty(),
    {
        match self.0.take() {
            None => {
                proof {
                    assert(false);
                }
            },
            Some(v) => {
                self.0 = Some(BinData::rot_right_node(v));
            },
        }
    }

    /// Hoists the root's right child to the root, preserving the contents and
    /// the ordering and recounting the affected heights.
    pub fn rot_left(&mut self)
        requires
            old(self).rot_left_pre(),
            old(self).root_right_nonempty(),
        ensures
            final(self).as_mset() == old(self).as_mset(),
            final(self).well_formed(),
            final(self).spec_height() <= 1 + old(self).root_right_height(),
            !final(self).spec_is_empty(),
    {
        match self.0.take() {
            None => {
                proof {
                    assert(false);
                }
            },
            Some(v) => {
                self.0 = Some(BinData::rot_left_node(v));
            },
        }
    }

    /// Inserts `data`, keeping the search ordering, recounting heights, and
    /// applying one rotation where a subtree outgrows its sibling by more
    /// than one. Values below the node's go left; equal or greater go right.
    pub fn add_sorted(&mut self, data: i64)
        requires
            old(self).well_formed(),
            old(self).spec_height() <= 126,
        ensures
            final(self).well_formed(),
            final(self).as_mset() == old(self).as_mset().insert(data),
            final(self).spec_height() <= old(self).spec_height() + 1,
            1 <= final(self).spec_height(),
        decreases old(self).spec_height(),
    {
        let ghost pre = *old(self);
        let rot_dir: RotationDirection;
        match self.0.take() {
            Some(mut bd) => {
                let ghost bd0 = *bd;
                proof {
                    lemma_height_nonneg(bd0.left);
                    lemma_height_nonneg(bd0.right);
                    assert(pre.spec_height() == 1 + (if bd0.left.spec_height()
                        >= bd0.right.spec_height() {
                        bd0.left.spec_height()
                    } else {
                        bd0.right.spec_height()
                    }));
                }
                if data < bd.data {
                    bd.left.add_sorted(data);
                    rot_dir = if bd.left.height() - bd.right.height() > 1 {
                        RotationDirection::Left
                    } else {
                        RotationDirection::NoRotation
                    };
                } else {
                    bd.right.add_sorted(data);
                    rot_dir = if bd.right.height() - bd.left.height() > 1 {
                        RotationDirection::Right
                    } else {
                        RotationDirection::NoRotation
                    };
                }
                self.0 = Some(bd);
                proof {
                    assert(self.as_mset() =~= pre.as_mset().insert(data));
                    assert(self.is_bst());
                    assert(self.spec_height() <= pre.spec_height() + 1);
                }
            },
            None => {
                self.0 = Some(
                    Box::new(BinData { data, h: 0, left: BinTree::new(), right: BinTree::new() }),
                );
                rot_dir = RotationDirection::NoRotation;
                proof {
                    assert(self.as_mset() =~= pre.as_mset().insert(data));
                }
            },
        }
        let ghost mid = *self;
        match rot_dir {
            RotationDirection::Left => {
                proof {
                    lemma_nonempty_of_height(mid.0->Some_0.left);
                }
                self.rot_right();
            },
            RotationDirection::Right => {
                proof {
                    lemma_nonempty_of_height(mid.0->Some_0.right);
                }
                self.rot_left();
            },
            RotationDirection::NoRotation => self.set_height(),
        }
        proof {
            lemma_nonempty_height(*self);
        }
    }

    /// Removes and returns the greatest value, or `None` for the empty tree.
    /// The walk consumes the tree: afterwards it is empty.
    pub fn max_value(&mut self) -> (r: Option<i64>)
        requires
            old(self).is_bst(),
        ensures
            final(self).spec_is_empty(),
            final(self).well_formed(),
            r is Some <==> !old(self).spec_is_empty(),
            r is Some ==> old(self).as_mset().count(r->Some_0) > 0,
            r is Some ==> forall|x: i64| old(self).as_mset().count(x) > 0 ==> x <= r->Some_0,
    {
        match self.0.take() {
            Some(v) => BinData::max_value_node(v),
            None => None,
        }
    }
}

impl BinData {
    /// The values of the subtree rooted here, with multiplicity.
    pub closed spec fn node_mset(self) -> Multiset<i64> {
        self.left.as_mset().add(self.right.as_mset()).insert(self.data)
    }

    /// The true height of the subtree rooted here.
    pub closed spec fn node_height(self) -> int {
        1 + (if self.left.spec_height() >= self.right.spec_height() {
            self.left.spec_height()
        } else {
            self.right.spec_height()
        })
    }

    /// Hoists this node's left child, returning the new subtree root. The
    /// contents and the ordering are preserved and the two recounted nodes
    /// get exact heights.
    fn rot_right_node(node: Box<BinData>) -> (r: Box<BinData>)
        requires
            node.left.well_formed(),
            node.right.well_formed(),
            forall|x: i64| node.left.as_mset().count(x) > 0 ==> x <= node.data,
            forall|x: i64| node.right.as_mset().count(x) > 0 ==> x >= node.data,
            node.left.spec_height() <= 126,
            node.right.spec_height() + 2 <= node.left.spec_height(),
        ensures
            r.node_mset() == node.node_mset(),
            r.left.well_formed(),
            r.right.well_formed(),
            forall|x: i64| r.left.as_mset().count(x) > 0 ==> x <= r.data,
            forall|x: i64| r.right.as_mset().count(x) > 0 ==> x >= r.data,
            r.h as int == r.node_height(),
            r.node_height() <= 1 + node.left.spec_height(),
    {
        let ghost n0 = *node;
        let BinData { data, h, left, right } = *node;
        proof {
            lemma_height_nonneg(right);
            lemma_nonempty_of_height(left);
        }
        match left.0 {
            None => {
                proof {
                    assert(false);
                }
                Box::new(BinData { data, h, left: BinTree(None), right })
            },
            Some(res_box) => {
                let ghost r0 = *res_box;
                let BinData { data: rdata, h: rh, left: rleft, right: rright } = *res_box;
                proof {
                    lemma_height_nonneg(rleft);
                    lemma_height_nonneg(rright);
                    assert(n0.left.spec_height() == 1 + (if rleft.spec_height()
                        >= rright.spec_height() {
                        rleft.spec_height()
                    } else {
                        rright.spec_height()
                    }));
                    lemma_set_height_pre(rright);
                    assert(n0.left.as_mset() == rleft.as_mset().add(rright.as_mset()).insert(
                        rdata,
                    ));
                }
                let mut new_left = rright;
                new_left.set_height();
                let mut lower = BinTree(Some(Box::new(BinData { data, h, left: new_left, right })));
                proof {
                    assert forall|x: i64| new_left.as_mset().count(x) > 0 implies x <= data by {
                        assert(n0.left.as_mset().count(x) > 0);
                    }
                    assert forall|x: i64| right.as_mset().count(x) > 0 implies x >= data by {
                        assert(n0.right.as_mset().count(x) > 0);
                    }
                    assert(lower.is_bst());
                }
                lower.set_height();
                proof {
                    assert(lower.spec_height() == 1 + (if new_left.spec_height()
                        >= right.spec_height() {
                        new_left.spec_height()
                    } else {
                        right.spec_height()
                    }));
                    assert(lower.as_mset() =~= rright.as_mset().add(right.as_mset()).insert(data));
                }
                let hl = rleft.height();
                let hr = lower.height();
                let r = Box::new(
                    BinData {
                        data: rdata,
                        h: 1 + (if hl >= hr {
                            hl
                        } else {
                            hr
                        }),
                        left: rleft,
                        right: lower,
                    },
                );
                proof {
                    assert(n0.left.as_mset().count(rdata) > 0);
                    assert forall|x: i64| r.left.as_mset().count(x) > 0 implies x <= r.data by {
                        assert(r0.left.as_mset().count(x) > 0);
                    }
                    assert forall|x: i64| r.right.as_mset().count(x) > 0 implies x >= r.data by {
                        assert(lower.as_mset().count(x) == rright.as_mset().count(x)
                            + right.as_mset().count(x) + (if x == data {
                            1int
                        } else {
                            0int
                        }));
                        if rright.as_mset().count(x) > 0 {
                            assert(r0.right.as_mset().count(x) > 0);
                        } else if right.as_mset().count(x) > 0 {
                            assert(n0.right.as_mset().count(x) > 0);
                        } else {
                            assert(x == data);
                        }
                    }
                    assert(r.node_mset() =~= n0.node_mset());
                }
                r
            },
        }
    }

    /// Hoists this node's right child, returning the new subtree root. The
    /// contents and the ordering are preserved and the two recounted nodes
    /// get exact heights.
    fn rot_left_node(node: Box<BinData>) -> (r: Box<BinData>)
        requires
            node.left.well_formed(),
            node.right.well_formed(),
            forall|x: i64| node.left.as_mset().count(x) > 0 ==> x <= node.data,
            forall|x: i64| node.right.as_mset().count(x) > 0 ==> x >= node.data,
            node.right.spec_height() <= 126,
            node.left.spec_height() + 2 <= node.right.spec_height(),
        ensures
            r.node_mset() == node.node_mset(),
            r.left.well_formed(),
            r.right.well_formed(),
            forall|x: i64| r.left.as_mset().count(x) > 0 ==> x <= r.data,
            forall|x: i64| r.right.as_mset().count(x) > 0 ==> x >= r.data,
            r.h as int == r.node_height(),
            r.node_height() <= 1 + node.right.spec_height(),
    {
        let ghost n0 = *node;
        let BinData { data, h, left, right } = *node;
        proof {
            lemma_height_nonneg(left);
            lemma_nonempty_of_height(right);
        }
        match right.0 {
            None => {
                proof {
                    assert(false);
                }
                Box::new(BinData { data, h, left, right: BinTree(None) })
            },
            Some(res_box) => {
                let ghost r0 = *res_box;
                let BinData { data: rdata, h: rh, left: rleft, right: rright } = *res_box;
                proof {
                    lemma_height_nonneg(rleft);
                    lemma_height_nonneg(rright);
                    assert(n0.right.spec_height() == 1 + (if rleft.spec_height()
                        >= rright.spec_height() {
                        rleft.spec_height()
                    } else {
                        rright.spec_height()
                    }));
                    lemma_set_height_pre(rleft);
                    assert(n0.right.as_mset() == rleft.as_mset().add(rright.as_mset()).insert(
                        rdata,
                    ));
                }
                let mut new_right = rleft;
                new_right.set_height();
                let mut lower = BinTree(
                    Some(Box::new(BinData { data, h, left, right: new_right })),
                );
                proof {
                    assert forall|x: i64| new_right.as_mset().count(x) > 0 implies x >= data by {
                        assert(n0.right.as_mset().count(x) > 0);
                    }
                    assert forall|x: i64| left.as_mset().count(x) > 0 implies x <= data by {
                        assert(n0.left.as_mset().count(x) > 0);
                    }
                    assert(lower.is_bst());
                }
                lower.set_height();
                proof {
                    assert(lower.spec_height() == 1 + (if left.spec_height()
                        >= new_right.spec_height() {
                        left.spec_height()
                    } else {
                        new_right.spec_height()
                    }));
                    assert(lower.as_mset() =~= left.as_mset().add(rleft.as_mset()).insert(data));
                }
                let hl = lower.height();
                let hr = rright.height();
                let r = Box::new(
                    BinData {
                        data: rdata,
                        h: 1 + (if hl >= hr {
                            hl
                        } else {
                            hr
                        }),
                        left: lower,
                        right: rright,
                    },
                );
                proof {
                    assert(n0.right.as_mset().count(rdata) > 0);
                    assert forall|x: i64| r.right.as_mset().count(x) > 0 implies x >= r.data by {
                        assert(r0.right.as_mset().count(x) > 0);
                    }
                    assert forall|x: i64| r.left.as_mset().count(x) > 0 implies x <= r.data by {
                        assert(lower.as_mset().count(x) == left.as_mset().count(x)
                            + rleft.as_mset().count(x) + (if x == data {
                            1int
                        } else {
                            0int
                        }));
                        if rleft.as_mset().count(x) > 0 {
                            assert(r0.left.as_mset().count(x) > 0);
                        } else if left.as_mset().count(x) > 0 {
                            assert(n0.left.as_mset().count(x) > 0);
                        } else {
                            assert(x == data);
                        }
                    }
                    assert(r.node_mset() =~= n0.node_mset());
                }
                r
            },
        }
    }

    /// The greatest value of the subtree rooted at `node`: the rightmost one
    /// under the search ordering.
    fn max_value_node(node: Box<BinData>) -> (r: Option<i64>)
        requires
            node.left.is_bst(),
            node.right.is_bst(),
            forall|x: i64| node.left.as_mset().count(x) > 0 ==> x <= node.data,
            forall|x: i64| node.right.as_mset().count(x) > 0 ==> x >= node.data,
        ensures
            r is Some,
            node.node_mset().count(r->Some_0) > 0,
            forall|x: i64| node.node_mset().count(x) > 0 ==> x <= r->Some_0,
        decreases *node,
    {
        let ghost n0 = *node;
        let BinData { data, h, left, right } = *node;
        match right.0 {
            Some(x) => {
                let ghost x0 = *x;
                let r = BinData::max_value_node(x);
                proof {
                    assert(n0.right.as_mset() == x0.node_mset());
                    assert(n0.right.as_mset().count(r->Some_0) > 0);
                    assert forall|y: i64| n0.node_mset().count(y) > 0 implies y <= r->Some_0 by {
                        if n0.left.as_mset().count(y) > 0 {
                        } else if n0.right.as_mset().count(y) > 0 {
                        } else {
                            assert(y == n0.data);
                        }
                    }
                }
                r
            },
            None => Some(data),
        }
    }
}

/// A well-formed tree's root height can be recounted: its children carry
/// exact heights below the recount bound.
proof fn lemma_set_height_pre(t: BinTree)
    requires
        t.hgt_ok(),
        t.spec_height() <= 127,
    ensures
        t.set_height_pre(),
{
    match t.0 {
        None => {},
        Some(b) => {
            lemma_height_nonneg(b.left);
            lemma_height_nonneg(b.right);
        },
    }
}

/// A tree's height is never negative.
proof fn lemma_height_nonneg(t: BinTree)
    ensures
        t.spec_height() >= 0,
    decreases t,
{
    match t.0 {
        None => {},
        Some(b) => {
            lemma_height_nonneg(b.left);
            lemma_height_nonneg(b.right);
        },
    }
}

/// A tree of positive height holds a root node.
proof fn lemma_nonempty_of_height(t: BinTree)
    requires
        t.spec_height() >= 1,
    ensures
        !t.spec_is_empty(),
{
}

/// A tree with a root node has height at least one.
proof fn lemma_nonempty_height(t: BinTree)
    ensures
        !t.spec_is_empty() ==> t.spec_height() >= 1,
{
    match t.0 {
        None => {},
        Some(b) => {
            lemma_height_nonneg(b.left);
            lemma_height_nonneg(b.right);
        },
    }
}

} // verus!
