use vstd::prelude::*;
use crate::pane_tree::{
    first_position, lemma_first_position, lemma_direct_leaf_has, lemma_first_with_leaf, lemma_first_with_leaf_found,
    lemma_leaf_has, lemma_leaves_of_has, lemma_leaves_of_push, lemma_split_absent,
    lemma_toggle_absent, Shape, SplitDirection,
};

verus! {

pub proof fn lemma_first_position_found(s: Seq<usize>, x: usize)
    ensures
        0 <= first_position(s, x) <= s.len(),
        forall|j: int| 0 <= j < first_position(s, x) ==> s[j] != x,
        first_position(s, x) < s.len() ==> s[first_position(s, x)] == x,
        first_position(s, x) < s.len() <==> s.contains(x),
    decreases s.len(),
{
    if s.len() > 0 && s[0] != x {
        let rest = s.drop_first();
        lemma_first_position_found(rest, x);
        let f = first_position(rest, x);
        assert forall|j: int| 0 <= j < f + 1 implies s[j] != x by {
            if j > 0 {
                assert(s[j] == rest[j - 1]);
            }
        }
        if f < rest.len() {
            assert(s[f + 1] == rest[f]);
        }
        if s.contains(x) {
            let i = choose|i: int| 0 <= i < s.len() && s[i] == x;
            assert(rest[i - 1] == x);
        }
    }
}

/// In a concatenation the first `x` is the first `x` of the middle part,
/// where the part before it holds none and the middle part holds one.
pub proof fn lemma_first_position_in_middle(a: Seq<usize>, b: Seq<usize>, c: Seq<usize>, x: usize)
    requires
        !a.contains(x),
        b.contains(x),
    ensures
        first_position(a + b + c, x) == a.len() + first_position(b, x),
{
    lemma_first_position_found(b, x);
    let k = a.len() + first_position(b, x);
    let s = a + b + c;
    assert forall|j: int| 0 <= j < k implies s[j] != x by {
        if j < a.len() {
            assert(s[j] == a[j]);
        } else {
            assert(s[j] == b[j - a.len()]);
        }
    }
    assert(s[k] == b[first_position(b, x)]);
    lemma_first_position(s, x, k);
}

pub proof fn lemma_leaves_of_concat(a: Seq<Shape>, b: Seq<Shape>)
    ensures
        Shape::leaves_of(a + b) == Shape::leaves_of(a) + Shape::leaves_of(b),
    decreases b.len(),
{
    if b.len() == 0 {
        assert(a + b =~= a);
        assert(Shape::leaves_of(a) + Shape::leaves_of(b) =~= Shape::leaves_of(a));
    } else {
        assert((a + b).drop_last() =~= a + b.drop_last());
        lemma_leaves_of_concat(a, b.drop_last());
        assert(Shape::leaves_of(a + b) =~= Shape::leaves_of(a) + Shape::leaves_of(b));
    }
}

pub proof fn lemma_leaves_of_one(tree: Shape)
    ensures
        Shape::leaves_of(seq![tree]) == tree.leaves(),
{
    let none = Seq::<Shape>::empty();
    assert(seq![tree] =~= none.push(tree));
    lemma_leaves_of_push(none, tree);
    assert(Shape::leaves_of(none) + tree.leaves() =~= tree.leaves());
}

pub proof fn lemma_leaves_of_pair(first: Shape, second: Shape)
    ensures
        Shape::leaves_of(seq![first, second]) == first.leaves() + second.leaves(),
{
    assert(seq![first, second] =~= seq![first].push(second));
    lemma_leaves_of_push(seq![first], second);
    lemma_leaves_of_one(first);
}

/// The leaves of a sequence of trees, cut at the tree at position `k`.
pub proof fn lemma_leaves_of_cut(nodes: Seq<Shape>, k: int)
    requires
        0 <= k < nodes.len(),
    ensures
        Shape::leaves_of(nodes) == Shape::leaves_of(nodes.take(k)) + nodes[k].leaves()
            + Shape::leaves_of(nodes.skip(k + 1)),
{
    assert(nodes =~= nodes.take(k) + seq![nodes[k]] + nodes.skip(k + 1));
    lemma_leaves_of_concat(nodes.take(k) + seq![nodes[k]], nodes.skip(k + 1));
    lemma_leaves_of_concat(nodes.take(k), seq![nodes[k]]);
    lemma_leaves_of_one(nodes[k]);
}

/// The leaves of a sequence of trees with the tree at position `k` left out.
pub proof fn lemma_leaves_of_remove(nodes: Seq<Shape>, k: int)
    requires
        0 <= k < nodes.len(),
    ensures
        Shape::leaves_of(nodes.remove(k)) == Shape::leaves_of(nodes.take(k)) + Shape::leaves_of(
            nodes.skip(k + 1),
        ),
{
    assert(nodes.remove(k) =~= nodes.take(k) + nodes.skip(k + 1));
    lemma_leaves_of_concat(nodes.take(k), nodes.skip(k + 1));
}

/// Before the first tree that has the leaf, no leaf is `pane`.
pub proof fn lemma_no_leaf_before_first(nodes: Seq<Shape>, pane: usize)
    ensures
        !Shape::leaves_of(nodes.take(Shape::first_with_leaf(nodes, pane))).contains(pane),
{
    lemma_first_with_leaf_found(nodes, pane);
    let k = Shape::first_with_leaf(nodes, pane);
    lemma_leaves_of_has(nodes.take(k), pane);
    if Shape::leaves_of(nodes.take(k)).contains(pane) {
        let j = choose|j: int| 0 <= j < nodes.take(k).len() && (#[trigger] nodes.take(k)[j]).has_leaf(pane);
        assert(nodes.take(k)[j] == nodes[j]);
    }
}

/// Inserting into the middle part of a concatenation.
pub proof fn lemma_insert_in_middle(a: Seq<usize>, b: Seq<usize>, c: Seq<usize>, at: int, x: usize)
    requires
        0 <= at <= b.len(),
    ensures
        a + b.insert(at, x) + c == (a + b + c).insert(a.len() + at, x),
{
    assert(a + b.insert(at, x) + c =~= (a + b + c).insert(a.len() + at, x));
}

/// Removing from the middle part of a concatenation.
pub proof fn lemma_remove_in_middle(a: Seq<usize>, b: Seq<usize>, c: Seq<usize>, at: int)
    requires
        0 <= at < b.len(),
    ensures
        a + b.remove(at) + c == (a + b + c).remove(a.len() + at),
{
    assert(a + b.remove(at) + c =~= (a + b + c).remove(a.len() + at));
}

/// Splitting a leaf puts the new pane right behind the first occurrence of
/// the target in display order and leaves every other leaf where it was.
#[verifier::rlimit(40)]
pub proof fn law_split_leaves_order(
    tree: Shape,
    target: usize,
    direction: SplitDirection,
    new_pane: usize,
)
    requires
        tree.has_leaf(target),
    ensures
        tree.split(target, direction, new_pane).leaves() == tree.leaves().insert(
            first_position(tree.leaves(), target) + 1,
            new_pane,
        ),
    decreases tree,
{
    match tree {
        Shape::Leaf { pane } => {
            lemma_leaf_has(pane, target);
            lemma_leaves_of_pair(Shape::Leaf { pane }, Shape::Leaf { pane: new_pane });
            assert(seq![pane].insert(1, new_pane) =~= seq![pane] + seq![new_pane]);
        },
        Shape::Split { direction: axis, children } => {
            lemma_leaves_of_has(children, target);
            lemma_first_with_leaf_found(children, target);
            let k = Shape::first_with_leaf(children, target);
            lemma_no_leaf_before_first(children, target);
            let before = Shape::leaves_of(children.take(k));
            let mid = children[k].leaves();
            let behind = Shape::leaves_of(children.skip(k + 1));
            lemma_leaves_of_cut(children, k);
            lemma_first_position_in_middle(before, mid, behind, target);
            lemma_first_position_found(mid, target);
            law_split_leaves_order(children[k], target, direction, new_pane);
            let grown = children[k].split(target, direction, new_pane);
            let after = children.update(k, grown);
            lemma_leaves_of_cut(after, k);
            assert(after.take(k) =~= children.take(k));
            assert(after.skip(k + 1) =~= children.skip(k + 1));
            lemma_insert_in_middle(before, mid, behind, first_position(mid, target) + 1, new_pane);
        },
    }
}

/// Removing a leaf takes the first occurrence of the target out of the
/// display order and leaves every other leaf where it was.
#[verifier::rlimit(40)]
pub proof fn law_remove_leaves_order(tree: Shape, target: usize)
    requires
        tree.encloses(target),
    ensures
        tree.remove_leaf(target).leaves() == tree.leaves().remove(
            first_position(tree.leaves(), target),
        ),
    decreases tree,
{
    match tree {
        Shape::Leaf { .. } => {},
        Shape::Split { direction, children } => {
            lemma_leaves_of_has(children, target);
            lemma_first_with_leaf_found(children, target);
            let k = Shape::first_with_leaf(children, target);
            lemma_no_leaf_before_first(children, target);
            let before = Shape::leaves_of(children.take(k));
            let mid = children[k].leaves();
            let behind = Shape::leaves_of(children.skip(k + 1));
            lemma_leaves_of_cut(children, k);
            lemma_first_position_in_middle(before, mid, behind, target);
            lemma_first_position_found(mid, target);
            let at = first_position(mid, target);
            match children[k] {
                Shape::Leaf { pane } => {
                    lemma_leaf_has(pane, target);
                    let rest = children.remove(k);
                    lemma_leaves_of_remove(children, k);
                    if rest.len() == 1 {
                        assert(rest =~= seq![rest[0]]);
                        lemma_leaves_of_one(rest[0]);
                    }
                    assert(before + behind =~= (before + mid + behind).remove(before.len() + at));
                },
                Shape::Split { .. } => {
                    law_remove_leaves_order(children[k], target);
                    let shrunk = children[k].remove_leaf(target);
                    let after = children.update(k, shrunk);
                    lemma_leaves_of_cut(after, k);
                    assert(after.take(k) =~= children.take(k));
                    assert(after.skip(k + 1) =~= children.skip(k + 1));
                    lemma_remove_in_middle(before, mid, behind, at);
                },
            }
        },
    }
}

/// Toggling an axis keeps the leaves and their order, and keeps a split a
/// split.
pub proof fn lemma_toggle_leaves(tree: Shape, target: usize)
    ensures
        tree.toggle_axis(target).leaves() == tree.leaves(),
        tree.toggle_axis(target) is Split <==> tree is Split,
    decreases tree,
{
    match tree {
        Shape::Leaf { .. } => {},
        Shape::Split { direction, children } => {
            if !Shape::has_direct_leaf(children, target) {
                lemma_first_with_leaf_found(children, target);
                let k = Shape::first_with_leaf(children, target);
                if k < children.len() {
                    lemma_toggle_leaves(children[k], target);
                    let after = children.update(k, children[k].toggle_axis(target));
                    lemma_leaves_of_cut(children, k);
                    lemma_leaves_of_cut(after, k);
                    assert(after.take(k) =~= children.take(k));
                    assert(after.skip(k + 1) =~= children.skip(k + 1));
                }
            }
        },
    }
}

/// Toggling the axis around the same leaf twice gives the tree back.
#[verifier::rlimit(40)]
pub proof fn law_toggle_axis_twice(tree: Shape, target: usize)
    ensures
        tree.toggle_axis(target).toggle_axis(target) == tree,
    decreases tree,
{
    match tree {
        Shape::Leaf { .. } => {},
        Shape::Split { direction, children } => {
            if !Shape::has_direct_leaf(children, target) {
                lemma_first_with_leaf_found(children, target);
                let k = Shape::first_with_leaf(children, target);
                if k < children.len() {
                    let turned = children[k].toggle_axis(target);
                    let after = children.update(k, turned);
                    lemma_direct_leaf_has(children, k, target);
                    lemma_toggle_leaves(children[k], target);
                    law_toggle_axis_twice(children[k], target);
                    assert(!Shape::has_direct_leaf(after, target)) by {
                        if Shape::has_direct_leaf(after, target) {
                            let j = choose|j: int|
                                0 <= j < after.len() && #[trigger] after[j] == (Shape::Leaf {
                                    pane: target,
                                });
                            assert(j != k);
                            assert(children[j] == (Shape::Leaf { pane: target }));
                        }
                    }
                    assert forall|j: int| 0 <= j < k implies !(#[trigger] after[j]).has_leaf(
                        target,
                    ) by {
                        assert(after[j] == children[j]);
                    }
                    lemma_first_with_leaf(after, target, k);
                    assert(after.update(k, turned.toggle_axis(target)) =~= children);
                }
            }
        },
    }
}

/// Whether two trees are the same but for the axes of their splits.
pub open spec fn same_but_axes(a: Shape, b: Shape) -> bool
    decreases a,
{
    match a {
        Shape::Leaf { .. } => b == a,
        Shape::Split { children: ca, .. } => match b {
            Shape::Leaf { .. } => false,
            Shape::Split { children: cb, .. } => ca.len() == cb.len() && forall|k: int|
                0 <= k < ca.len() ==> same_but_axes(#[trigger] ca[k], cb[k]),
        },
    }
}

/// In how many splits the axis of `a` is another than that of `b`, the
/// two trees taken split by split and child by child.
pub open spec fn axes_changed(a: Shape, b: Shape) -> nat
    decreases a, 0int,
{
    match a {
        Shape::Leaf { .. } => 0,
        Shape::Split { direction: da, children: ca } => match b {
            Shape::Leaf { .. } => 0,
            Shape::Split { direction: db, children: cb } => (if da != db {
                1nat
            } else {
                0nat
            }) + axes_changed_of(ca, cb, ca.len() as int),
        },
    }
}

/// In how many splits the axes differ within the first `upto` children.
pub open spec fn axes_changed_of(ca: Seq<Shape>, cb: Seq<Shape>, upto: int) -> nat
    decreases ca, upto,
{
    if 0 < upto <= ca.len() && upto <= cb.len() {
        axes_changed_of(ca, cb, upto - 1) + axes_changed(ca[upto - 1], cb[upto - 1])
    } else {
        0
    }
}

/// A tree is the same as itself, and no axis differs.
pub proof fn lemma_no_axis_changed(tree: Shape)
    ensures
        same_but_axes(tree, tree),
        axes_changed(tree, tree) == 0,
    decreases tree, 0int,
{
    match tree {
        Shape::Leaf { .. } => {},
        Shape::Split { children, .. } => {
            lemma_no_axis_changed_of(children, children.len() as int);
            assert forall|k: int| 0 <= k < children.len() implies same_but_axes(
                #[trigger] children[k],
                children[k],
            ) by {
                lemma_no_axis_changed(children[k]);
            }
        },
    }
}

pub proof fn lemma_no_axis_changed_of(children: Seq<Shape>, upto: int)
    requires
        0 <= upto <= children.len(),
    ensures
        axes_changed_of(children, children, upto) == 0,
    decreases children, upto,
{
    if upto > 0 {
        lemma_no_axis_changed_of(children, upto - 1);
        lemma_no_axis_changed(children[upto - 1]);
    }
}

/// Where one child is replaced, the axes that differ are those that
/// differ in that child.
pub proof fn lemma_axes_changed_at(children: Seq<Shape>, k: int, turned: Shape, upto: int)
    requires
        0 <= k < children.len(),
        0 <= upto <= children.len(),
    ensures
        axes_changed_of(children, children.update(k, turned), upto) == if k < upto {
            axes_changed(children[k], turned)
        } else {
            0
        },
    decreases upto,
{
    if upto > 0 {
        lemma_axes_changed_at(children, k, turned, upto - 1);
        if upto - 1 != k {
            lemma_no_axis_changed(children[upto - 1]);
        }
    }
}

/// Toggling changes nothing but the axis of one split: the tree stays the
/// same but for the axes, and the axis of exactly one split is another
/// where a split encloses the leaf, of none where none does.
pub proof fn law_toggle_axis_flips_one_split(tree: Shape, target: usize)
    ensures
        same_but_axes(tree, tree.toggle_axis(target)),
        axes_changed(tree, tree.toggle_axis(target)) == if tree.encloses(target) {
            1nat
        } else {
            0nat
        },
    decreases tree,
{
    if !tree.encloses(target) {
        lemma_toggle_absent(tree, target);
        lemma_no_axis_changed(tree);
    } else {
        match tree {
            Shape::Leaf { .. } => {},
            Shape::Split { direction, children } => {
                lemma_leaves_of_has(children, target);
                if Shape::has_direct_leaf(children, target) {
                    lemma_no_axis_changed_of(children, children.len() as int);
                    assert forall|k: int| 0 <= k < children.len() implies same_but_axes(
                        #[trigger] children[k],
                        children[k],
                    ) by {
                        lemma_no_axis_changed(children[k]);
                    }
                    assert(direction.flipped() != direction);
                } else {
                    lemma_first_with_leaf_found(children, target);
                    let k = Shape::first_with_leaf(children, target);
                    if k >= children.len() {
                        let j = choose|j: int|
                            0 <= j < children.len() && (#[trigger] children[j]).has_leaf(target);
                        assert(false);
                    }
                    let turned = children[k].toggle_axis(target);
                    let after = children.update(k, turned);
                    lemma_direct_leaf_has(children, k, target);
                    law_toggle_axis_flips_one_split(children[k], target);
                    lemma_axes_changed_at(children, k, turned, children.len() as int);
                    assert forall|j: int| 0 <= j < children.len() implies same_but_axes(
                        #[trigger] children[j],
                        after[j],
                    ) by {
                        if j != k {
                            lemma_no_axis_changed(children[j]);
                        }
                    }
                }
            },
        }
    }
}

/// Toggling an axis does not reorder the leaves.
pub proof fn law_toggle_axis_keeps_order(tree: Shape, target: usize)
    ensures
        tree.toggle_axis(target).leaves() == tree.leaves(),
{
    lemma_toggle_leaves(tree, target);
}

/// Splitting a leaf that the tree has adds one leaf.
pub proof fn law_split_adds_one_leaf(
    tree: Shape,
    target: usize,
    direction: SplitDirection,
    new_pane: usize,
)
    requires
        tree.has_leaf(target),
    ensures
        tree.split(target, direction, new_pane).leaves().len() == tree.leaves().len() + 1,
{
    law_split_leaves_order(tree, target, direction, new_pane);
    lemma_first_position_found(tree.leaves(), target);
}

/// After splitting a leaf that the tree has, a pane that the tree did not
/// name before is named by exactly one leaf.
pub proof fn law_split_names_new_pane_once(
    tree: Shape,
    target: usize,
    direction: SplitDirection,
    new_pane: usize,
)
    requires
        tree.has_leaf(target),
        !tree.has_leaf(new_pane),
    ensures
        tree.split(target, direction, new_pane).leaves().to_multiset().count(new_pane) == 1,
{
    law_split_leaves_order(tree, target, direction, new_pane);
    lemma_first_position_found(tree.leaves(), target);
    let at = first_position(tree.leaves(), target) + 1;
    vstd::seq_lib::to_multiset_insert(tree.leaves(), at, new_pane);
    vstd::seq_lib::to_multiset_contains(tree.leaves(), new_pane);
}

/// Splitting keeps the leaves distinct where the new pane is not yet named.
pub proof fn lemma_split_keeps_unique(
    tree: Shape,
    target: usize,
    direction: SplitDirection,
    new_pane: usize,
)
    requires
        tree.leaves_unique(),
        !tree.has_leaf(new_pane),
    ensures
        tree.split(target, direction, new_pane).leaves_unique(),
{
    if tree.has_leaf(target) {
        law_split_leaves_order(tree, target, direction, new_pane);
        lemma_first_position_found(tree.leaves(), target);
        let old_leaves = tree.leaves();
        let at = first_position(old_leaves, target) + 1;
        let new_leaves = old_leaves.insert(at, new_pane);
        assert forall|i: int, j: int|
            0 <= i < new_leaves.len() && 0 <= j < new_leaves.len() && i != j implies new_leaves[i]
            != new_leaves[j] by {
            let oi = if i < at { i } else { i - 1 };
            let oj = if j < at { j } else { j - 1 };
            if i != at {
                assert(new_leaves[i] == old_leaves[oi]);
            }
            if j != at {
                assert(new_leaves[j] == old_leaves[oj]);
            }
        }
    } else {
        lemma_split_absent(tree, target, direction, new_pane);
    }
}

/// Splitting keeps every split at two children or more.
pub proof fn lemma_split_keeps_well_formed(
    tree: Shape,
    target: usize,
    direction: SplitDirection,
    new_pane: usize,
)
    requires
        tree.well_formed(),
    ensures
        tree.split(target, direction, new_pane).well_formed(),
    decreases tree,
{
    match tree {
        Shape::Leaf { pane } => {
            if pane == target {
                let kids = seq![Shape::Leaf { pane }, Shape::Leaf { pane: new_pane }];
                assert forall|k: int| 0 <= k < kids.len() implies (#[trigger] kids[k]).well_formed() by {}
            }
        },
        Shape::Split { direction: axis, children } => {
            lemma_first_with_leaf_found(children, target);
            let k = Shape::first_with_leaf(children, target);
            if k < children.len() {
                lemma_split_keeps_well_formed(children[k], target, direction, new_pane);
                let after = children.update(k, children[k].split(target, direction, new_pane));
                assert forall|j: int| 0 <= j < after.len() implies (#[trigger] after[j]).well_formed() by {
                    if j != k {
                        assert(after[j] == children[j]);
                    }
                }
            }
        },
    }
}

/// Toggling keeps every split at two children or more.
pub proof fn lemma_toggle_keeps_well_formed(tree: Shape, target: usize)
    requires
        tree.well_formed(),
    ensures
        tree.toggle_axis(target).well_formed(),
    decreases tree,
{
    match tree {
        Shape::Leaf { .. } => {},
        Shape::Split { direction, children } => {
            if !Shape::has_direct_leaf(children, target) {
                lemma_first_with_leaf_found(children, target);
                let k = Shape::first_with_leaf(children, target);
                if k < children.len() {
                    lemma_toggle_keeps_well_formed(children[k], target);
                    let after = children.update(k, children[k].toggle_axis(target));
                    assert forall|j: int| 0 <= j < after.len() implies (#[trigger] after[j]).well_formed() by {
                        if j != k {
                            assert(after[j] == children[j]);
                        }
                    }
                }
            }
        },
    }
}

/// Removing a leaf keeps every split at two children or more.
pub proof fn lemma_remove_keeps_well_formed(tree: Shape, target: usize)
    requires
        tree.well_formed(),
    ensures
        tree.remove_leaf(target).well_formed(),
    decreases tree,
{
    match tree {
        Shape::Leaf { .. } => {},
        Shape::Split { direction, children } => {
            lemma_first_with_leaf_found(children, target);
            let k = Shape::first_with_leaf(children, target);
            if k < children.len() {
                if children[k] is Leaf {
                    let rest = children.remove(k);
                    assert forall|j: int| 0 <= j < rest.len() implies (#[trigger] rest[j]).well_formed() by {
                        if j < k {
                            assert(rest[j] == children[j]);
                        } else {
                            assert(rest[j] == children[j + 1]);
                        }
                    }
                } else {
                    lemma_remove_keeps_well_formed(children[k], target);
                    let after = children.update(k, children[k].remove_leaf(target));
                    assert forall|j: int| 0 <= j < after.len() implies (#[trigger] after[j]).well_formed() by {
                        if j != k {
                            assert(after[j] == children[j]);
                        }
                    }
                }
            }
        },
    }
}

/// A tree of more than one leaf is a split.
pub proof fn lemma_many_leaves_is_split(tree: Shape)
    requires
        tree.leaves().len() > 1,
    ensures
        tree is Split,
{
}

/// Removing a leaf that a tree of more than one leaf has takes one leaf
/// away.
pub proof fn law_remove_takes_one_leaf(tree: Shape, target: usize)
    requires
        tree.leaves().len() > 1,
        tree.has_leaf(target),
    ensures
        tree.remove_leaf(target).leaves().len() == tree.leaves().len() - 1,
{
    lemma_many_leaves_is_split(tree);
    law_remove_leaves_order(tree, target);
    lemma_first_position_found(tree.leaves(), target);
}

/// After removing a leaf from a tree of more than one leaf, all distinct,
/// no leaf names the removed pane.
pub proof fn law_remove_leaves_pane_absent(tree: Shape, target: usize)
    requires
        tree.leaves_unique(),
        tree.leaves().len() > 1,
        tree.has_leaf(target),
    ensures
        !tree.remove_leaf(target).has_leaf(target),
        tree.remove_leaf(target).leaves_unique(),
{
    lemma_many_leaves_is_split(tree);
    law_remove_leaves_order(tree, target);
    lemma_first_position_found(tree.leaves(), target);
    let old_leaves = tree.leaves();
    let at = first_position(old_leaves, target);
    let new_leaves = old_leaves.remove(at);
    assert forall|i: int| 0 <= i < new_leaves.len() implies new_leaves[i] != target by {
        let oi = if i < at { i } else { i + 1 };
        assert(new_leaves[i] == old_leaves[oi]);
    }
    assert forall|i: int, j: int|
        0 <= i < new_leaves.len() && 0 <= j < new_leaves.len() && i != j implies new_leaves[i]
        != new_leaves[j] by {
        let oi = if i < at { i } else { i + 1 };
        let oj = if j < at { j } else { j + 1 };
        assert(new_leaves[i] == old_leaves[oi]);
        assert(new_leaves[j] == old_leaves[oj]);
    }
}

/// Removing a leaf from a tree in which every split has two children or
/// more leaves no split with fewer.
pub proof fn law_remove_leaves_no_small_split(tree: Shape, target: usize)
    requires
        tree.well_formed(),
        tree.leaves().len() > 1,
        tree.has_leaf(target),
    ensures
        tree.remove_leaf(target).well_formed(),
{
    lemma_remove_keeps_well_formed(tree, target);
}

} // verus!
