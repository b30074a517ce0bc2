use vstd::prelude::*;
use std::collections::HashMap;
use crate::geometry::Rect;
use crate::pane_tree::{lemma_shapes, shapes, PaneNode, Shape, SplitDirection};

verus! {

broadcast use vstd::std_specs::hash::group_hash_axioms;

/// The rectangle that the layout gave to one pane.
#[derive(Clone, Copy, Debug, PartialEq, Eq, Structural)]
pub struct PaneArea {
    pub pane: usize,
    pub rect: Rect,
}

/// Whether the children of a split along `direction` stand side by side
/// (a vertical dividing line) or one below the other.
pub open spec fn side_by_side(direction: SplitDirection) -> bool {
    direction == SplitDirection::Vertical
}

impl Shape {
    /// The rectangles of the leaves in display order when the tree is laid
    /// out in `rect`: a leaf takes the whole rectangle, a split cuts it
    /// into as many equal tiles as it has children, the last child taking
    /// what the division leaves over.
    pub open spec fn layout(self, rect: Rect) -> Seq<PaneArea>
        decreases self, 0int,
    {
        match self {
            Shape::Leaf { pane } => seq![PaneArea { pane, rect }],
            Shape::Split { direction, children } => Self::layout_of(
                children,
                direction,
                rect,
                children.len() as int,
            ),
        }
    }

    /// The layout of the first `upto` children of a split of `rect`.
    pub open spec fn layout_of(
        children: Seq<Shape>,
        direction: SplitDirection,
        rect: Rect,
        upto: int,
    ) -> Seq<PaneArea>
        decreases children, upto,
    {
        if 0 < upto <= children.len() {
            Self::layout_of(children, direction, rect, upto - 1) + children[upto - 1].layout(
                rect.tile(side_by_side(direction), children.len() as int, upto - 1),
            )
        } else {
            Seq::empty()
        }
    }
}

/// How many of `areas` hold the cell at column `px`, row `py`.
pub open spec fn cover_count(areas: Seq<PaneArea>, px: int, py: int) -> nat
    decreases areas.len(),
{
    if areas.len() == 0 {
        0
    } else {
        cover_count(areas.drop_last(), px, py) + if areas.last().rect.covers(px, py) {
            1nat
        } else {
            0nat
        }
    }
}

/// `areas` tile `rect`: every cell of `rect` lies in exactly one of them,
/// and no cell outside `rect` lies in any.
pub open spec fn tiles(areas: Seq<PaneArea>, rect: Rect) -> bool {
    forall|px: int, py: int|
        #[trigger] cover_count(areas, px, py) == if rect.covers(px, py) {
            1nat
        } else {
            0nat
        }
}

/// The panes of `areas`, one for one.
pub open spec fn panes_of(areas: Seq<PaneArea>) -> Seq<usize> {
    Seq::new(areas.len(), |k: int| areas[k].pane)
}

/// The mapping that comes of `map` when the rectangles `areas` are entered
/// one after the other, each under its pane: a later rectangle takes the
/// place of an earlier one of the same pane.
pub open spec fn placed(map: Map<usize, Rect>, areas: Seq<PaneArea>) -> Map<usize, Rect>
    decreases areas.len(),
{
    if areas.len() == 0 {
        map
    } else {
        placed(map, areas.drop_last()).insert(areas.last().pane, areas.last().rect)
    }
}

/// Entering two runs of rectangles one after the other is entering the
/// two as one run.
pub proof fn lemma_placed_add(map: Map<usize, Rect>, a: Seq<PaneArea>, b: Seq<PaneArea>)
    ensures
        placed(map, a + b) == placed(placed(map, a), b),
    decreases b.len(),
{
    if b.len() == 0 {
        assert(a + b =~= a);
    } else {
        lemma_placed_add(map, a, b.drop_last());
        assert((a + b).drop_last() =~= a + b.drop_last());
        assert((a + b).last() == b.last());
    }
}

/// A pane has a rectangle after the entering exactly where it had one
/// before or one of the rectangles is its own.
pub proof fn lemma_placed_keys(map: Map<usize, Rect>, areas: Seq<PaneArea>, pane: usize)
    ensures
        placed(map, areas).contains_key(pane) <==> map.contains_key(pane) || exists|k: int|
            0 <= k < areas.len() && (#[trigger] areas[k]).pane == pane,
    decreases areas.len(),
{
    if areas.len() > 0 {
        let front = areas.drop_last();
        lemma_placed_keys(map, front, pane);
        if exists|k: int| 0 <= k < front.len() && (#[trigger] front[k]).pane == pane {
            let k = choose|k: int| 0 <= k < front.len() && (#[trigger] front[k]).pane == pane;
            assert(areas[k].pane == pane);
        }
        if exists|k: int| 0 <= k < areas.len() && (#[trigger] areas[k]).pane == pane {
            let k = choose|k: int| 0 <= k < areas.len() && (#[trigger] areas[k]).pane == pane;
            if k < front.len() {
                assert(front[k].pane == pane);
            }
        }
    }
}

/// A rectangle that no later one of the same pane follows is the one that
/// its pane has after the entering.
pub proof fn lemma_placed_entry(map: Map<usize, Rect>, areas: Seq<PaneArea>, k: int)
    requires
        0 <= k < areas.len(),
        forall|j: int| k < j < areas.len() ==> (#[trigger] areas[j]).pane != areas[k].pane,
    ensures
        placed(map, areas).contains_key(areas[k].pane),
        placed(map, areas)[areas[k].pane] == areas[k].rect,
    decreases areas.len(),
{
    if k < areas.len() - 1 {
        let front = areas.drop_last();
        assert(front[k] == areas[k]);
        assert forall|j: int| k < j < front.len() implies (#[trigger] front[j]).pane
            != front[k].pane by {
            assert(front[j] == areas[j]);
        }
        lemma_placed_entry(map, front, k);
        assert(areas[areas.len() - 1].pane != areas[k].pane);
    }
}

/// The rectangles of the panes of a tree, each under the index of its
/// pane: what is painted, and what a pointer position is looked up in.
pub struct PaneRectMap {
    pub rects: HashMap<usize, Rect>,
}

impl View for PaneRectMap {
    type V = Map<usize, Rect>;

    open spec fn view(&self) -> Map<usize, Rect> {
        self.rects@
    }
}

impl PaneRectMap {
    /// A mapping without rectangles.
    pub fn new() -> (map: PaneRectMap)
        ensures
            map@ == Map::<usize, Rect>::empty(),
    {
        PaneRectMap { rects: HashMap::new() }
    }

    /// The number of panes that have a rectangle.
    pub fn len(&self) -> (n: usize)
        ensures
            n == self@.dom().len(),
    {
        self.rects.len()
    }

    /// The rectangle of `pane`, if it has one.
    pub fn get(&self, pane: usize) -> (found: Option<Rect>)
        ensures
            found == if self@.contains_key(pane) {
                Some(self@[pane])
            } else {
                None
            },
    {
        match self.rects.get(&pane) {
            Some(rect) => Some(*rect),
            None => None,
        }
    }

    /// A pane under the cell at column `x`, row `y`: one whose rectangle
    /// holds the cell, if there is one. Where the rectangles lie apart, as
    /// those of a layout do, there is at most one.
    pub fn pane_at(&self, x: u16, y: u16) -> (hit: Option<usize>)
        ensures
            match hit {
                Some(pane) => self@.contains_key(pane) && self@[pane].covers(x as int, y as int),
                None => forall|pane: usize|
                    self@.contains_key(pane) ==> !(#[trigger] self@[pane]).covers(x as int, y as int),
            },
    {
        for entry in it: self.rects.iter()
            invariant
                forall|k: int|
                    0 <= k < it.index() ==> !(*(#[trigger] it.seq()[k]).1).covers(x as int, y as int),
        {
            let (pane, rect) = entry;
            if rect.contains(x, y) {
                return Some(*pane);
            }
        }
        None
    }
}

fn allocate_into(node: &PaneNode, rect: Rect, out: &mut HashMap<usize, Rect>)
    requires
        rect.on_screen(),
    ensures
        final(out)@ == placed(old(out)@, node@.layout(rect)),
    decreases node,
{
    match node {
        PaneNode::Single(pane) => {
            let _ = out.insert(*pane, rect);
            proof {
                let areas = node@.layout(rect);
                assert(areas.len() == 1);
                assert(areas.last() == (PaneArea { pane: *pane, rect }));
                assert(placed(old(out)@, areas.drop_last()) == old(out)@);
            }
        },
        PaneNode::Split { direction, children } => {
            let ghost kids = shapes(children@);
            proof {
                lemma_shapes(children@);
            }
            let columns = match direction {
                SplitDirection::Vertical => true,
                SplitDirection::Horizontal => false,
            };
            let n = children.len();
            let mut i: usize = 0;
            while i < n
                invariant
                    i <= n,
                    n == children.len(),
                    rect.on_screen(),
                    columns == side_by_side(*direction),
                    kids == shapes(children@),
                    kids.len() == n,
                    *node matches PaneNode::Split { children: c, .. } && c == children,
                    out@ == placed(old(out)@, Shape::layout_of(kids, *direction, rect, i as int)),
                decreases n - i,
            {
                proof {
                    lemma_shapes(children@);
                    lemma_placed_add(
                        old(out)@,
                        Shape::layout_of(kids, *direction, rect, i as int),
                        kids[i as int].layout(rect.tile(columns, n as int, i as int)),
                    );
                }
                let tile = rect.nth_tile(columns, n, i);
                allocate_into(&children[i], tile, out);
                i = i + 1;
            }
        },
    }
}

/// Lays the tree out in `rect` and returns the rectangle of every pane
/// under the pane's index. A rectangle that reaches past the last column
/// or row of the screen is cut off there first. The panes that have a
/// rectangle are the leaves of the tree. Where no two leaves name one
/// pane, every rectangle of the layout is that of its pane; where every
/// split of the tree has two children or more, the rectangles of the
/// layout tile the rectangle that was laid out.
pub fn allocate(tree: &PaneNode, rect: Rect) -> (map: PaneRectMap)
    ensures
        map@ == placed(Map::empty(), tree@.layout(rect.clipped())),
        forall|pane: usize| #[trigger] map@.contains_key(pane) <==> tree@.has_leaf(pane),
        tree@.leaves_unique() ==> forall|k: int|
            #![trigger tree@.layout(rect.clipped())[k]]
            0 <= k < tree@.layout(rect.clipped()).len() ==> map@[tree@.layout(
                rect.clipped(),
            )[k].pane] == tree@.layout(rect.clipped())[k].rect,
        tree@.well_formed() ==> tiles(tree@.layout(rect.clipped()), rect.clipped()),
{
    let area = Rect::new(rect.x, rect.y, rect.width, rect.height);
    let mut rects: HashMap<usize, Rect> = HashMap::new();
    allocate_into(tree, area, &mut rects);
    proof {
        crate::layout_laws::lemma_layout_map(tree@, rect.clipped());
        if tree@.well_formed() {
            crate::layout_laws::lemma_layout_tiles(tree@, rect.clipped());
        }
    }
    PaneRectMap { rects }
}

} // verus!
