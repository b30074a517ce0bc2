use vstd::prelude::*;

verus! {

/// The axis along which a split node lays out its children.
#[derive(Clone, Copy, Debug, PartialEq, Eq, Structural)]
pub enum SplitDirection {
    Horizontal,
    Vertical,
}

impl SplitDirection {
    /// The other axis.
    pub open spec fn flipped(self) -> SplitDirection {
        match self {
            SplitDirection::Horizontal => SplitDirection::Vertical,
            SplitDirection::Vertical => SplitDirection::Horizontal,
        }
    }

    /// The other axis.
    pub fn toggled(self) -> (d: SplitDirection)
        ensures
            d == self.flipped(),
    {
        match self {
            SplitDirection::Horizontal => SplitDirection::Vertical,
            SplitDirection::Vertical => SplitDirection::Horizontal,
        }
    }
}

/// The mathematical tree that a `PaneNode` stands for.
pub enum Shape {
    Leaf { pane: usize },
    Split { direction: SplitDirection, children: Seq<Shape> },
}

/// A tiling of the screen: a leaf names one pane by its index in the pane
/// store, a split lays its children out side by side along one axis.
#[derive(Debug, PartialEq, Eq)]
pub enum PaneNode {
    Single(usize),
    Split { direction: SplitDirection, children: Vec<PaneNode> },
}

impl View for PaneNode {
    type V = Shape;

    open spec fn view(&self) -> Shape {
        self.shape()
    }
}

impl PaneNode {
    /// The tree that this node stands for.
    pub open spec fn shape(self) -> Shape
        decreases self,
    {
        match self {
            PaneNode::Single(i) => Shape::Leaf { pane: i },
            PaneNode::Split { direction, children } => Shape::Split {
                direction,
                children: shapes(children@),
            },
        }
    }
}

/// The position of the first `x` in `s`, or the length of `s` where `x`
/// does not occur.
pub open spec fn first_position(s: Seq<usize>, x: usize) -> int
    decreases s.len(),
{
    if s.len() == 0 {
        0
    } else if s[0] == x {
        0
    } else {
        1 + first_position(s.drop_first(), x)
    }
}

/// `first_position` is the one position before which `x` does not occur
/// and at which, if it is a position of the sequence, `x` stands.
pub proof fn lemma_first_position(s: Seq<usize>, x: usize, k: int)
    requires
        0 <= k <= s.len(),
        forall|j: int| 0 <= j < k ==> s[j] != x,
        k < s.len() ==> s[k] == x,
    ensures
        first_position(s, x) == k,
    decreases s.len(),
{
    if s.len() > 0 && k > 0 {
        let rest = s.drop_first();
        assert(s[0] != x);
        assert forall|j: int| 0 <= j < k - 1 implies rest[j] != x by {
            assert(rest[j] == s[j + 1]);
        }
        lemma_first_position(rest, x, k - 1);
    }
}

/// The shapes of a sequence of nodes, one for one.
pub open spec fn shapes(nodes: Seq<PaneNode>) -> Seq<Shape>
    decreases nodes,
{
    if nodes.len() == 0 {
        Seq::empty()
    } else {
        shapes(nodes.drop_last()).push(nodes.last().shape())
    }
}

impl Shape {
    /// The pane indices at the leaves, depth first, children in stored order.
    pub open spec fn leaves(self) -> Seq<usize>
        decreases self,
    {
        match self {
            Shape::Leaf { pane } => seq![pane],
            Shape::Split { children, .. } => Self::leaves_of(children),
        }
    }

    /// The leaves of a sequence of trees, one tree after the other.
    pub open spec fn leaves_of(nodes: Seq<Shape>) -> Seq<usize>
        decreases nodes,
    {
        if nodes.len() == 0 {
            Seq::empty()
        } else {
            Self::leaves_of(nodes.drop_last()) + nodes.last().leaves()
        }
    }

    /// Whether some leaf names `pane`.
    pub open spec fn has_leaf(self, pane: usize) -> bool {
        self.leaves().contains(pane)
    }

    /// The position of the first tree in `nodes` that has a leaf `pane`, or
    /// the length of `nodes` where none has.
    pub open spec fn first_with_leaf(nodes: Seq<Shape>, pane: usize) -> int
        decreases nodes.len(),
    {
        if nodes.len() == 0 {
            0
        } else if nodes[0].has_leaf(pane) {
            0
        } else {
            1 + Self::first_with_leaf(nodes.drop_first(), pane)
        }
    }

    /// Whether one of `nodes` is itself the leaf `pane`.
    pub open spec fn has_direct_leaf(nodes: Seq<Shape>, pane: usize) -> bool {
        exists|k: int| 0 <= k < nodes.len() && #[trigger] nodes[k] == (Shape::Leaf { pane })
    }

    /// Whether a toggle or a removal aimed at `target` finds its place in
    /// this tree: the tree is a split and has the leaf.
    pub open spec fn encloses(self, target: usize) -> bool {
        self is Split && self.has_leaf(target)
    }

    /// The tree after the axis of the split that holds the leaf `target`
    /// among its own children has been flipped. A split that holds the leaf
    /// directly is preferred to one deeper down; among the children the
    /// first that has the leaf is searched. A tree in which no split
    /// encloses the leaf stays as it is.
    pub open spec fn toggle_axis(self, target: usize) -> Shape
        decreases self,
    {
        match self {
            Shape::Leaf { .. } => self,
            Shape::Split { direction, children } => {
                if Self::has_direct_leaf(children, target) {
                    Shape::Split { direction: direction.flipped(), children }
                } else {
                    let k = Self::first_with_leaf(children, target);
                    if 0 <= k < children.len() {
                        Shape::Split {
                            direction,
                            children: children.update(k, children[k].toggle_axis(target)),
                        }
                    } else {
                        self
                    }
                }
            },
        }
    }

    /// The tree after the first leaf `target`, depth first, has been taken
    /// out of its parent's children. A parent left with one child is
    /// replaced by that child. A tree in which no split encloses the leaf
    /// stays as it is.
    pub open spec fn remove_leaf(self, target: usize) -> Shape
        decreases self,
    {
        match self {
            Shape::Leaf { .. } => self,
            Shape::Split { direction, children } => {
                let k = Self::first_with_leaf(children, target);
                if 0 <= k < children.len() {
                    if children[k] is Leaf {
                        let rest = children.remove(k);
                        if rest.len() == 1 {
                            rest[0]
                        } else {
                            Shape::Split { direction, children: rest }
                        }
                    } else {
                        Shape::Split {
                            direction,
                            children: children.update(k, children[k].remove_leaf(target)),
                        }
                    }
                } else {
                    self
                }
            },
        }
    }

    /// Every split has at least two children.
    pub open spec fn well_formed(self) -> bool
        decreases self,
    {
        match self {
            Shape::Leaf { .. } => true,
            Shape::Split { children, .. } => {
                &&& children.len() >= 2
                &&& forall|k: int| 0 <= k < children.len() ==> (#[trigger] children[k]).well_formed()
            },
        }
    }

    /// No two leaves name the same pane.
    pub open spec fn leaves_unique(self) -> bool {
        self.leaves().no_duplicates()
    }

    /// Every leaf names a pane of a store of `pane_count` panes.
    pub open spec fn leaves_below(self, pane_count: int) -> bool {
        forall|k: int| 0 <= k < self.leaves().len() ==> (#[trigger] self.leaves()[k]) < pane_count
    }

    /// The tree after the first leaf `target`, depth first, has become a
    /// split along `direction` of that leaf and a new leaf `new_pane`. A
    /// tree without such a leaf stays as it is.
    pub open spec fn split(self, target: usize, direction: SplitDirection, new_pane: usize) -> Shape
        decreases self,
    {
        match self {
            Shape::Leaf { pane } => if pane == target {
                Shape::Split {
                    direction,
                    children: seq![Shape::Leaf { pane }, Shape::Leaf { pane: new_pane }],
                }
            } else {
                self
            },
            Shape::Split { direction: axis, children } => {
                let k = Self::first_with_leaf(children, target);
                if 0 <= k < children.len() {
                    Shape::Split {
                        direction: axis,
                        children: children.update(k, children[k].split(target, direction, new_pane)),
                    }
                } else {
                    self
                }
            },
        }
    }
}

pub proof fn lemma_shapes(nodes: Seq<PaneNode>)
    ensures
        shapes(nodes).len() == nodes.len(),
        forall|k: int| 0 <= k < nodes.len() ==> #[trigger] shapes(nodes)[k] == nodes[k]@,
    decreases nodes.len(),
{
    if nodes.len() > 0 {
        lemma_shapes(nodes.drop_last());
    }
}

pub proof fn lemma_leaves_of_push(nodes: Seq<Shape>, last: Shape)
    ensures
        Shape::leaves_of(nodes.push(last)) == Shape::leaves_of(nodes) + last.leaves(),
{
    assert(nodes.push(last).drop_last() =~= nodes);
}

pub proof fn lemma_leaves_of_take_step(nodes: Seq<Shape>, k: int)
    requires
        0 <= k < nodes.len(),
    ensures
        Shape::leaves_of(nodes.take(k + 1)) == Shape::leaves_of(nodes.take(k)) + nodes[k].leaves(),
{
    assert(nodes.take(k + 1) =~= nodes.take(k).push(nodes[k]));
    lemma_leaves_of_push(nodes.take(k), nodes[k]);
}

pub proof fn lemma_concat_contains(a: Seq<usize>, b: Seq<usize>, x: usize)
    ensures
        (a + b).contains(x) <==> a.contains(x) || b.contains(x),
{
    if a.contains(x) {
        let i = choose|i: int| 0 <= i < a.len() && a[i] == x;
        assert((a + b)[i] == x);
    }
    if b.contains(x) {
        let i = choose|i: int| 0 <= i < b.len() && b[i] == x;
        assert((a + b)[a.len() + i] == x);
    }
    if (a + b).contains(x) {
        let i = choose|i: int| 0 <= i < (a + b).len() && (a + b)[i] == x;
        if i < a.len() {
            assert(a[i] == x);
        } else {
            assert(b[i - a.len()] == x);
        }
    }
}

/// A sequence of trees has a leaf exactly where one of the trees has it.
pub proof fn lemma_leaves_of_has(nodes: Seq<Shape>, pane: usize)
    ensures
        Shape::leaves_of(nodes).contains(pane) <==> exists|k: int|
            0 <= k < nodes.len() && (#[trigger] nodes[k]).has_leaf(pane),
    decreases nodes.len(),
{
    if nodes.len() > 0 {
        let front = nodes.drop_last();
        lemma_leaves_of_has(front, pane);
        lemma_concat_contains(Shape::leaves_of(front), nodes.last().leaves(), pane);
        if Shape::leaves_of(front).contains(pane) {
            let k = choose|k: int| 0 <= k < front.len() && (#[trigger] front[k]).has_leaf(pane);
            assert(nodes[k].has_leaf(pane));
        }
        if exists|k: int| 0 <= k < nodes.len() && (#[trigger] nodes[k]).has_leaf(pane) {
            let k = choose|k: int| 0 <= k < nodes.len() && (#[trigger] nodes[k]).has_leaf(pane);
            if k < front.len() {
                assert(front[k].has_leaf(pane));
            }
        }
    }
}

/// `first_with_leaf` is the one position before which no tree has the leaf
/// and at which, if it is a position of the sequence, the tree has it.
pub proof fn lemma_first_with_leaf(nodes: Seq<Shape>, pane: usize, k: int)
    requires
        0 <= k <= nodes.len(),
        forall|j: int| 0 <= j < k ==> !(#[trigger] nodes[j]).has_leaf(pane),
        k < nodes.len() ==> nodes[k].has_leaf(pane),
    ensures
        Shape::first_with_leaf(nodes, pane) == k,
    decreases nodes.len(),
{
    if nodes.len() > 0 && k > 0 {
        let rest = nodes.drop_first();
        assert(!nodes[0].has_leaf(pane));
        assert forall|j: int| 0 <= j < k - 1 implies !(#[trigger] rest[j]).has_leaf(pane) by {
            assert(rest[j] == nodes[j + 1]);
        }
        lemma_first_with_leaf(rest, pane, k - 1);
    }
}

pub proof fn lemma_first_with_leaf_found(nodes: Seq<Shape>, pane: usize)
    ensures
        0 <= Shape::first_with_leaf(nodes, pane) <= nodes.len(),
        forall|j: int|
            0 <= j < Shape::first_with_leaf(nodes, pane) ==> !(#[trigger] nodes[j]).has_leaf(pane),
        Shape::first_with_leaf(nodes, pane) < nodes.len() ==> nodes[Shape::first_with_leaf(
            nodes,
            pane,
        )].has_leaf(pane),
    decreases nodes.len(),
{
    if nodes.len() > 0 && !nodes[0].has_leaf(pane) {
        let rest = nodes.drop_first();
        lemma_first_with_leaf_found(rest, pane);
        let f = Shape::first_with_leaf(rest, pane);
        assert forall|j: int| 0 <= j < f + 1 implies !(#[trigger] nodes[j]).has_leaf(pane) by {
            if j > 0 {
                assert(nodes[j] == rest[j - 1]);
            }
        }
        if f < rest.len() {
            assert(nodes[f + 1] == rest[f]);
        }
    }
}

/// A tree that is a leaf has exactly that leaf.
pub proof fn lemma_leaf_has(pane: usize, target: usize)
    ensures
        (Shape::Leaf { pane }).has_leaf(target) <==> pane == target,
{
    assert(seq![pane][0] == pane);
}

/// Where no tree of `nodes` is the leaf `target` itself, a tree of `nodes`
/// that has the leaf is a split.
pub proof fn lemma_direct_leaf_has(nodes: Seq<Shape>, k: int, target: usize)
    requires
        0 <= k < nodes.len(),
        !Shape::has_direct_leaf(nodes, target),
    ensures
        nodes[k].has_leaf(target) <==> nodes[k].encloses(target),
{
    match nodes[k] {
        Shape::Leaf { pane } => {
            lemma_leaf_has(pane, target);
            assert(nodes[k] != (Shape::Leaf { pane: target }));
        },
        Shape::Split { .. } => {},
    }
}

/// Toggling around a leaf that no split of the tree encloses changes nothing.
pub proof fn lemma_toggle_absent(tree: Shape, target: usize)
    requires
        !tree.encloses(target),
    ensures
        tree.toggle_axis(target) == tree,
{
    match tree {
        Shape::Leaf { .. } => {},
        Shape::Split { children, .. } => {
            lemma_leaves_of_has(children, target);
            lemma_first_with_leaf(children, target, children.len() as int);
            if Shape::has_direct_leaf(children, target) {
                let k = choose|k: int|
                    0 <= k < children.len() && #[trigger] children[k] == (Shape::Leaf {
                        pane: target,
                    });
                lemma_leaf_has(target, target);
                assert(children[k].has_leaf(target));
            }
        },
    }
}

/// Removing a leaf that no split of the tree encloses changes nothing.
pub proof fn lemma_remove_absent(tree: Shape, target: usize)
    requires
        !tree.encloses(target),
    ensures
        tree.remove_leaf(target) == tree,
{
    match tree {
        Shape::Leaf { .. } => {},
        Shape::Split { children, .. } => {
            lemma_leaves_of_has(children, target);
            lemma_first_with_leaf(children, target, children.len() as int);
        },
    }
}

/// Splitting a leaf that the tree does not have changes nothing.
pub proof fn lemma_split_absent(
    tree: Shape,
    target: usize,
    direction: SplitDirection,
    new_pane: usize,
)
    requires
        !tree.has_leaf(target),
    ensures
        tree.split(target, direction, new_pane) == tree,
{
    match tree {
        Shape::Leaf { pane } => {
            assert(seq![pane][0] == pane);
        },
        Shape::Split { children, .. } => {
            lemma_leaves_of_has(children, target);
            lemma_first_with_leaf(children, target, children.len() as int);
        },
    }
}

impl PaneNode {
    /// A tree of one leaf.
    pub fn new_single(index: usize) -> (node: PaneNode)
        ensures
            node@ == (Shape::Leaf { pane: index }),
    {
        PaneNode::Single(index)
    }

    /// Splits the first leaf that names `target`, depth first: the leaf
    /// becomes a split along `direction` of itself and a new leaf
    /// `new_index`. Returns whether such a leaf was found; without one the
    /// tree is unchanged.
    pub fn split(&mut self, target: usize, direction: SplitDirection, new_index: usize) -> (found:
        bool)
        ensures
            found == old(self)@.has_leaf(target),
            final(self)@ == old(self)@.split(target, direction, new_index),
        decreases old(self)@,
    {
        match self {
            PaneNode::Single(idx) => {
                if *idx == target {
                    let mut children: Vec<PaneNode> = Vec::new();
                    children.push(PaneNode::Single(*idx));
                    children.push(PaneNode::Single(new_index));
                    proof {
                        lemma_shapes(children@);
                        assert(shapes(children@) =~= seq![
                            Shape::Leaf { pane: target },
                            Shape::Leaf { pane: new_index },
                        ]);
                        assert(seq![target].contains(target)) by {
                            assert(seq![target][0] == target);
                        }
                    }
                    *self = PaneNode::Split { direction, children };
                    true
                } else {
                    false
                }
            },
            PaneNode::Split { direction: axis, children } => {
                let ghost kids = shapes(children@);
                proof {
                    lemma_shapes(children@);
                }
                let mut i: usize = 0;
                while i < children.len()
                    invariant
                        i <= children.len(),
                        shapes(children@) == kids,
                        kids.len() == children.len(),
                        old(self)@ == (Shape::Split { direction: *axis, children: kids }),
                        *final(old(self)) == (PaneNode::Split {
                            direction: *final(axis),
                            children: *final(children),
                        }),
                        forall|j: int| 0 <= j < i ==> !(#[trigger] kids[j]).has_leaf(target),
                    decreases children.len() - i,
                {
                    proof {
                        lemma_shapes(children@);
                    }
                    let ghost before = children@;
                    let found = children[i].split(target, direction, new_index);
                    proof {
                        lemma_shapes(children@);
                        lemma_shapes(before);
                        if found {
                            lemma_first_with_leaf(kids, target, i as int);
                            lemma_leaves_of_has(kids, target);
                            assert(shapes(children@) =~= kids.update(
                                i as int,
                                kids[i as int].split(target, direction, new_index),
                            ));
                        } else {
                            lemma_split_absent(kids[i as int], target, direction, new_index);
                            assert(shapes(children@) =~= kids);
                        }
                    }
                    if found {
                        return true;
                    }
                    i = i + 1;
                }
                proof {
                    lemma_shapes(children@);
                    lemma_first_with_leaf(kids, target, kids.len() as int);
                    lemma_leaves_of_has(kids, target);
                }
                false
            },
        }
    }

    /// Flips the axis of the split that holds the leaf `target` among its
    /// own children. Returns whether a split was flipped; a tree of one
    /// leaf, or one without the leaf, is unchanged.
    pub fn toggle_axis(&mut self, target: usize) -> (toggled: bool)
        ensures
            toggled == old(self)@.encloses(target),
            final(self)@ == old(self)@.toggle_axis(target),
        decreases old(self)@,
    {
        match self {
            PaneNode::Single(_) => false,
            PaneNode::Split { direction, children } => {
                let ghost kids = shapes(children@);
                proof {
                    lemma_shapes(children@);
                }
                let mut direct = false;
                let mut j: usize = 0;
                while j < children.len() && !direct
                    invariant
                        j <= children.len(),
                        shapes(children@) == kids,
                        kids.len() == children.len(),
                        direct ==> Shape::has_direct_leaf(kids, target),
                        !direct ==> forall|k: int|
                            0 <= k < j ==> #[trigger] kids[k] != (Shape::Leaf { pane: target }),
                    decreases children.len() - j + (if direct { 0int } else { 1int }),
                {
                    proof {
                        lemma_shapes(children@);
                    }
                    match &children[j] {
                        PaneNode::Single(idx) => {
                            if *idx == target {
                                direct = true;
                                assert(kids[j as int] == (Shape::Leaf { pane: target }));
                            }
                        },
                        PaneNode::Split { .. } => {},
                    }
                    if !direct {
                        j = j + 1;
                    }
                }
                if direct {
                    proof {
                        let k = choose|k: int|
                            0 <= k < kids.len() && #[trigger] kids[k] == (Shape::Leaf {
                                pane: target,
                            });
                        assert(seq![target][0] == target);
                        assert(kids[k].has_leaf(target));
                        lemma_leaves_of_has(kids, target);
                    }
                    *direction = direction.toggled();
                    return true;
                }
                let mut i: usize = 0;
                while i < children.len()
                    invariant
                        i <= children.len(),
                        shapes(children@) == kids,
                        kids.len() == children.len(),
                        !Shape::has_direct_leaf(kids, target),
                        old(self)@ == (Shape::Split { direction: *direction, children: kids }),
                        *final(old(self)) == (PaneNode::Split {
                            direction: *final(direction),
                            children: *final(children),
                        }),
                        forall|k: int| 0 <= k < i ==> !(#[trigger] kids[k]).has_leaf(target),
                    decreases children.len() - i,
                {
                    proof {
                        lemma_shapes(children@);
                    }
                    let ghost before = children@;
                    let found = children[i].toggle_axis(target);
                    proof {
                        lemma_shapes(children@);
                        lemma_shapes(before);
                        lemma_direct_leaf_has(kids, i as int, target);
                        if found {
                            lemma_first_with_leaf(kids, target, i as int);
                            lemma_leaves_of_has(kids, target);
                            assert(shapes(children@) =~= kids.update(
                                i as int,
                                kids[i as int].toggle_axis(target),
                            ));
                        } else {
                            lemma_toggle_absent(kids[i as int], target);
                            assert(shapes(children@) =~= kids);
                        }
                    }
                    if found {
                        return true;
                    }
                    i = i + 1;
                }
                proof {
                    lemma_first_with_leaf(kids, target, kids.len() as int);
                    lemma_leaves_of_has(kids, target);
                }
                false
            },
        }
    }

    /// Takes the first leaf that names `target`, depth first, out of its
    /// parent's children; a parent left with one child is replaced by that
    /// child. Returns whether a leaf was removed; a tree of one leaf, or one
    /// without the leaf, is unchanged.
    pub fn remove_leaf(&mut self, target: usize) -> (removed: bool)
        ensures
            removed == old(self)@.encloses(target),
            final(self)@ == old(self)@.remove_leaf(target),
        decreases old(self)@,
    {
        match self {
            PaneNode::Single(_) => false,
            PaneNode::Split { direction, children } => {
                let ghost kids = shapes(children@);
                proof {
                    lemma_shapes(children@);
                }
                let mut i: usize = 0;
                let mut hit = false;
                let mut found = false;
                while i < children.len() && !hit && !found
                    invariant
                        i <= children.len(),
                        kids.len() == children.len(),
                        old(self)@ == (Shape::Split { direction: *direction, children: kids }),
                        forall|k: int| 0 <= k < i ==> !(#[trigger] kids[k]).has_leaf(target),
                        !found ==> shapes(children@) == kids,
                        hit ==> !found && i < children.len() && kids[i as int] == (Shape::Leaf {
                            pane: target,
                        }),
                        found ==> i < children.len() && kids[i as int].encloses(target)
                            && shapes(children@) == kids.update(
                            i as int,
                            kids[i as int].remove_leaf(target),
                        ),
                    decreases children.len() - i + (if hit || found { 0int } else { 1int }),
                {
                    proof {
                        lemma_shapes(children@);
                    }
                    let is_leaf = match &children[i] {
                        PaneNode::Single(idx) => {
                            proof {
                                lemma_leaf_has(*idx, target);
                            }
                            hit = *idx == target;
                            true
                        },
                        PaneNode::Split { .. } => false,
                    };
                    if !is_leaf {
                        let ghost before = children@;
                        assert(kids[i as int] == children@[i as int]@);
                        assert(decreases_to!(old(self)@->children => old(self)@->children[i as int]));
                        found = children[i].remove_leaf(target);
                        proof {
                            lemma_shapes(children@);
                            lemma_shapes(before);
                            if found {
                                assert(shapes(children@) =~= kids.update(
                                    i as int,
                                    kids[i as int].remove_leaf(target),
                                ));
                            } else {
                                lemma_remove_absent(kids[i as int], target);
                                assert(shapes(children@) =~= kids);
                            }
                        }
                    }
                    if !hit && !found {
                        i = i + 1;
                    }
                }
                proof {
                    lemma_leaves_of_has(kids, target);
                    if hit || found {
                        lemma_leaf_has(target, target);
                        lemma_first_with_leaf(kids, target, i as int);
                    } else {
                        lemma_first_with_leaf(kids, target, kids.len() as int);
                    }
                }
                if hit {
                    let ghost before = children@;
                    let _ = children.remove(i);
                    proof {
                        lemma_shapes(children@);
                        lemma_shapes(before);
                        assert(shapes(children@) =~= kids.remove(i as int));
                    }
                    if children.len() == 1 {
                        let only = children.pop();
                        match only {
                            Some(node) => {
                                *self = node;
                            },
                            None => {},
                        }
                    }
                    true
                } else {
                    found
                }
            },
        }
    }

    fn collect_leaves(&self, out: &mut Vec<usize>)
        ensures
            final(out)@ == old(out)@ + self@.leaves(),
        decreases self,
    {
        match self {
            PaneNode::Single(i) => {
                out.push(*i);
                assert(out@ =~= old(out)@ + self@.leaves());
            },
            PaneNode::Split { children, .. } => {
                proof {
                    lemma_shapes(children@);
                }
                let ghost kids = shapes(children@);
                let mut i: usize = 0;
                assert(kids.take(0) =~= Seq::<Shape>::empty());
                while i < children.len()
                    invariant
                        i <= children.len(),
                        kids == shapes(children@),
                        *self matches PaneNode::Split { children: c, .. } && c == children,
                        out@ == old(out)@ + Shape::leaves_of(kids.take(i as int)),
                    decreases children.len() - i,
                {
                    proof {
                        lemma_shapes(children@);
                        lemma_leaves_of_take_step(kids, i as int);
                    }
                    children[i].collect_leaves(out);
                    i = i + 1;
                }
                proof {
                    lemma_shapes(children@);
                    assert(kids.take(i as int) =~= kids);
                }
            },
        }
    }

    /// The pane indices in display order: depth first, children in stored
    /// order.
    pub fn leaf_indices(&self) -> (indices: Vec<usize>)
        ensures
            indices@ == self@.leaves(),
    {
        let mut out: Vec<usize> = Vec::new();
        self.collect_leaves(&mut out);
        assert(out@ =~= self@.leaves());
        out
    }

    /// The number of leaves.
    pub fn count_leaves(&self) -> (n: usize)
        ensures
            n == self@.leaves().len(),
    {
        self.leaf_indices().len()
    }
}

impl Clone for PaneNode {
    fn clone(&self) -> (copy: Self)
        ensures
            copy@ == self@,
        decreases self,
    {
        match self {
            PaneNode::Single(pane) => PaneNode::Single(*pane),
            PaneNode::Split { direction, children } => {
                let mut copies: Vec<PaneNode> = Vec::new();
                let mut i: usize = 0;
                while i < children.len()
                    invariant
                        i <= children.len(),
                        copies.len() == i,
                        *self matches PaneNode::Split { children: c, .. } && c == children,
                        forall|k: int| 0 <= k < i ==> (#[trigger] copies@[k])@ == children@[k]@,
                    decreases children.len() - i,
                {
                    copies.push(children[i].clone());
                    i = i + 1;
                }
                proof {
                    lemma_shapes(copies@);
                    lemma_shapes(children@);
                    assert(shapes(copies@) =~= shapes(children@));
                }
                PaneNode::Split { direction: *direction, children: copies }
            },
        }
    }
}

impl PaneNode {
    /// Whether some leaf names `pane`.
    pub fn contains_leaf(&self, pane: usize) -> (found: bool)
        ensures
            found == self@.has_leaf(pane),
    {
        let leaves = self.leaf_indices();
        let mut i: usize = 0;
        while i < leaves.len()
            invariant
                i <= leaves.len(),
                leaves@ == self@.leaves(),
                forall|k: int| 0 <= k < i ==> leaves@[k] != pane,
            decreases leaves.len() - i,
        {
            if leaves[i] == pane {
                assert(leaves@[i as int] == pane);
                return true;
            }
            i = i + 1;
        }
        false
    }

    /// Whether every split of this tree has two children or more.
    pub fn is_well_formed(&self) -> (ok: bool)
        ensures
            ok == self@.well_formed(),
        decreases self,
    {
        match self {
            PaneNode::Single(_) => true,
            PaneNode::Split { children, .. } => {
                proof {
                    lemma_shapes(children@);
                }
                if children.len() < 2 {
                    return false;
                }
                let mut i: usize = 0;
                while i < children.len()
                    invariant
                        i <= children.len(),
                        *self matches PaneNode::Split { children: c, .. } && c == children,
                        shapes(children@).len() == children.len(),
                        forall|k: int| 0 <= k < i ==> (#[trigger] shapes(children@)[k]).well_formed(),
                    decreases children.len() - i,
                {
                    proof {
                        lemma_shapes(children@);
                    }
                    if !children[i].is_well_formed() {
                        assert(!shapes(children@)[i as int].well_formed());
                        return false;
                    }
                    i = i + 1;
                }
                true
            },
        }
    }

    /// Whether the tree can stand over a store of `pane_count` panes: every
    /// split has two children or more, no two leaves name the same pane,
    /// and every leaf names a pane of the store.
    pub fn is_valid(&self, pane_count: usize) -> (ok: bool)
        ensures
            ok == (self@.well_formed() && self@.leaves_unique() && self@.leaves_below(
                pane_count as int,
            )),
    {
        if !self.is_well_formed() {
            return false;
        }
        let leaves = self.leaf_indices();
        let mut i: usize = 0;
        while i < leaves.len()
            invariant
                i <= leaves.len(),
                leaves@ == self@.leaves(),
                forall|k: int| 0 <= k < i ==> (#[trigger] leaves@[k]) < pane_count,
                forall|a: int, b: int| 0 <= a < b < i ==> leaves@[a] != leaves@[b],
            decreases leaves.len() - i,
        {
            if leaves[i] >= pane_count {
                assert(!(leaves@[i as int] < pane_count));
                return false;
            }
            let mut j: usize = 0;
            while j < i
                invariant
                    j <= i < leaves.len(),
                    leaves@ == self@.leaves(),
                    forall|a: int| 0 <= a < j ==> leaves@[a] != leaves@[i as int],
                decreases i - j,
            {
                if leaves[j] == leaves[i] {
                    assert(leaves@[j as int] == leaves@[i as int]);
                    return false;
                }
                j = j + 1;
            }
            i = i + 1;
        }
        true
    }
}

} // verus!
