use vstd::prelude::*;
use crate::geometry::{lemma_parts, part_offset, Rect};
use crate::layout::{
    cover_count, lemma_placed_entry, lemma_placed_keys, panes_of, placed, side_by_side, tiles,
    PaneArea,
};
use crate::pane_tree::{Shape, SplitDirection};

verus! {

/// The cells held by the first `upto` of `n` tiles of `rect`, as one
/// rectangle.
pub open spec fn tiles_before(rect: Rect, columns: bool, n: int, upto: int) -> Rect {
    if columns {
        Rect {
            x: rect.x,
            y: rect.y,
            width: if upto == n {
                rect.width
            } else {
                part_offset(rect.width as int, n, upto) as u16
            },
            height: rect.height,
        }
    } else {
        Rect {
            x: rect.x,
            y: rect.y,
            width: rect.width,
            height: if upto == n {
                rect.height
            } else {
                part_offset(rect.height as int, n, upto) as u16
            },
        }
    }
}

pub proof fn lemma_cover_count_concat(a: Seq<PaneArea>, b: Seq<PaneArea>, px: int, py: int)
    ensures
        cover_count(a + b, px, py) == cover_count(a, px, py) + cover_count(b, px, py),
    decreases b.len(),
{
    if b.len() == 0 {
        assert(a + b =~= a);
    } else {
        assert((a + b).drop_last() =~= a + b.drop_last());
        lemma_cover_count_concat(a, b.drop_last(), px, py);
    }
}

/// The first `upto + 1` tiles hold what the first `upto` hold and what the
/// tile at `upto` holds, and the two have no cell in common.
pub proof fn lemma_next_tile(rect: Rect, columns: bool, n: int, upto: int, px: int, py: int)
    requires
        rect.on_screen(),
        0 <= upto < n,
    ensures
        tiles_before(rect, columns, n, upto + 1).covers(px, py) <==> (tiles_before(
            rect,
            columns,
            n,
            upto,
        ).covers(px, py) || rect.tile(columns, n, upto).covers(px, py)),
        !(tiles_before(rect, columns, n, upto).covers(px, py) && rect.tile(
            columns,
            n,
            upto,
        ).covers(px, py)),
        rect.tile(columns, n, upto).on_screen(),
{
    lemma_parts(rect.width as int, n, upto);
    lemma_parts(rect.height as int, n, upto);
    if upto + 1 < n {
        lemma_parts(rect.width as int, n, upto + 1);
        lemma_parts(rect.height as int, n, upto + 1);
    }
}

/// Laid out in a rectangle, the leaves of a tree in which every split has
/// two children or more tile that rectangle.
pub proof fn lemma_layout_tiles(tree: Shape, rect: Rect)
    requires
        tree.well_formed(),
        rect.on_screen(),
    ensures
        tiles(tree.layout(rect), rect),
    decreases tree, 0int,
{
    match tree {
        Shape::Leaf { pane } => {
            let areas = seq![PaneArea { pane, rect }];
            assert forall|px: int, py: int|
                #[trigger] cover_count(areas, px, py) == if rect.covers(px, py) {
                    1nat
                } else {
                    0nat
                } by {
                assert(areas.drop_last() =~= Seq::<PaneArea>::empty());
                assert(cover_count(Seq::<PaneArea>::empty(), px, py) == 0);
            }
        },
        Shape::Split { direction, children } => {
            let n = children.len() as int;
            lemma_layout_of_tiles(children, direction, rect, n);
            assert(tiles_before(rect, side_by_side(direction), n, n) == rect);
        },
    }
}

pub proof fn lemma_layout_of_tiles(
    children: Seq<Shape>,
    direction: SplitDirection,
    rect: Rect,
    upto: int,
)
    requires
        forall|k: int| 0 <= k < children.len() ==> (#[trigger] children[k]).well_formed(),
        rect.on_screen(),
        0 <= upto <= children.len(),
        children.len() > 0,
    ensures
        tiles(
            Shape::layout_of(children, direction, rect, upto),
            tiles_before(rect, side_by_side(direction), children.len() as int, upto),
        ),
    decreases children, upto,
{
    let n = children.len() as int;
    let columns = side_by_side(direction);
    let areas = Shape::layout_of(children, direction, rect, upto);
    let region = tiles_before(rect, columns, n, upto);
    if upto == 0 {
        lemma_parts(rect.width as int, n, 0);
        lemma_parts(rect.height as int, n, 0);
        assert forall|px: int, py: int|
            #[trigger] cover_count(areas, px, py) == if region.covers(px, py) {
                1nat
            } else {
                0nat
            } by {}
    } else {
        let front = Shape::layout_of(children, direction, rect, upto - 1);
        let tile = rect.tile(columns, n, upto - 1);
        let last = children[upto - 1].layout(tile);
        lemma_layout_of_tiles(children, direction, rect, upto - 1);
        lemma_next_tile(rect, columns, n, upto - 1, 0, 0);
        lemma_layout_tiles(children[upto - 1], tile);
        assert forall|px: int, py: int|
            #[trigger] cover_count(areas, px, py) == if region.covers(px, py) {
                1nat
            } else {
                0nat
            } by {
            lemma_cover_count_concat(front, last, px, py);
            lemma_next_tile(rect, columns, n, upto - 1, px, py);
            let before = tiles_before(rect, columns, n, upto - 1);
            assert(cover_count(front, px, py) == if before.covers(px, py) {
                1nat
            } else {
                0nat
            });
            assert(cover_count(last, px, py) == if tile.covers(px, py) {
                1nat
            } else {
                0nat
            });
        }
    }
}

/// The layout names the leaves of the tree, in display order.
pub proof fn lemma_layout_panes(tree: Shape, rect: Rect)
    ensures
        panes_of(tree.layout(rect)) == tree.leaves(),
    decreases tree, 0int,
{
    match tree {
        Shape::Leaf { pane } => {
            assert(panes_of(tree.layout(rect)) =~= tree.leaves());
        },
        Shape::Split { direction, children } => {
            lemma_layout_of_panes(children, direction, rect, children.len() as int);
            assert(children.take(children.len() as int) =~= children);
        },
    }
}

pub proof fn lemma_layout_of_panes(
    children: Seq<Shape>,
    direction: SplitDirection,
    rect: Rect,
    upto: int,
)
    requires
        0 <= upto <= children.len(),
    ensures
        panes_of(Shape::layout_of(children, direction, rect, upto)) == Shape::leaves_of(
            children.take(upto),
        ),
    decreases children, upto,
{
    if upto == 0 {
        assert(children.take(0) =~= Seq::<Shape>::empty());
        assert(panes_of(Shape::layout_of(children, direction, rect, upto)) =~= Seq::<
            usize,
        >::empty());
    } else {
        let tile = rect.tile(side_by_side(direction), children.len() as int, upto - 1);
        lemma_layout_of_panes(children, direction, rect, upto - 1);
        lemma_layout_panes(children[upto - 1], tile);
        crate::pane_tree::lemma_leaves_of_take_step(children, upto - 1);
        let front = Shape::layout_of(children, direction, rect, upto - 1);
        let last = children[upto - 1].layout(tile);
        assert(panes_of(front + last) =~= panes_of(front) + panes_of(last));
    }
}

/// The mapping that the layout of a tree makes: the panes that have a
/// rectangle are the leaves, and where no two leaves name one pane, every
/// rectangle of the layout is that of its pane.
pub proof fn lemma_layout_map(tree: Shape, rect: Rect)
    ensures
        forall|pane: usize|
            #[trigger] placed(Map::empty(), tree.layout(rect)).contains_key(pane) <==> tree.has_leaf(
                pane,
            ),
        tree.leaves_unique() ==> forall|k: int|
            #![trigger tree.layout(rect)[k]]
            0 <= k < tree.layout(rect).len() ==> placed(Map::empty(), tree.layout(rect))[tree.layout(
                rect,
            )[k].pane] == tree.layout(rect)[k].rect,
{
    let areas = tree.layout(rect);
    let empty = Map::<usize, Rect>::empty();
    lemma_layout_panes(tree, rect);
    assert(panes_of(areas).len() == areas.len());
    assert forall|pane: usize| #[trigger]
        placed(empty, areas).contains_key(pane) <==> tree.has_leaf(pane) by {
        lemma_placed_keys(empty, areas, pane);
        if tree.has_leaf(pane) {
            let k = choose|k: int| 0 <= k < tree.leaves().len() && tree.leaves()[k] == pane;
            assert(panes_of(areas)[k] == areas[k].pane);
        }
        if exists|k: int| 0 <= k < areas.len() && (#[trigger] areas[k]).pane == pane {
            let k = choose|k: int| 0 <= k < areas.len() && (#[trigger] areas[k]).pane == pane;
            assert(panes_of(areas)[k] == pane);
            assert(tree.leaves()[k] == pane);
        }
    }
    if tree.leaves_unique() {
        assert forall|k: int| #![trigger areas[k]] 0 <= k < areas.len() implies placed(
            empty,
            areas,
        )[areas[k].pane] == areas[k].rect by {
            assert forall|j: int| k < j < areas.len() implies (#[trigger] areas[j]).pane
                != areas[k].pane by {
                assert(panes_of(areas)[j] == areas[j].pane);
                assert(panes_of(areas)[k] == areas[k].pane);
            }
            lemma_placed_entry(empty, areas, k);
        }
    }
}

/// The rectangles that a layout gives to the panes of a tree tile the
/// rectangle that was laid out: no cell of it is left over, none is given
/// twice, and none outside it is given.
pub proof fn law_layout_tiles_the_rectangle(tree: Shape, rect: Rect)
    requires
        tree.well_formed(),
    ensures
        tiles(tree.layout(rect.clipped()), rect.clipped()),
{
    lemma_layout_tiles(tree, rect.clipped());
}

/// Where exactly one of `areas` holds a cell, there is one position whose
/// rectangle holds it and no other; where none holds it, no position's
/// rectangle does.
pub proof fn lemma_cover_count_one(areas: Seq<PaneArea>, px: int, py: int)
    ensures
        cover_count(areas, px, py) == 0 ==> forall|k: int|
            0 <= k < areas.len() ==> !(#[trigger] areas[k]).rect.covers(px, py),
        cover_count(areas, px, py) == 1 ==> exists|k: int|
            0 <= k < areas.len() && (#[trigger] areas[k]).rect.covers(px, py) && forall|j: int|
                0 <= j < areas.len() && (#[trigger] areas[j]).rect.covers(px, py) ==> j == k,
    decreases areas.len(),
{
    if areas.len() > 0 {
        let front = areas.drop_last();
        lemma_cover_count_one(front, px, py);
        assert forall|k: int| 0 <= k < front.len() implies #[trigger] front[k] == areas[k] by {}
        if cover_count(areas, px, py) == 0 {
            assert forall|k: int| 0 <= k < areas.len() implies !(#[trigger] areas[k]).rect.covers(
                px,
                py,
            ) by {
                if k < front.len() {
                    assert(front[k] == areas[k]);
                }
            }
        }
        if cover_count(areas, px, py) == 1 {
            if areas.last().rect.covers(px, py) {
                let k = areas.len() - 1;
                assert(areas[k].rect.covers(px, py));
                assert forall|j: int|
                    0 <= j < areas.len() && (#[trigger] areas[j]).rect.covers(px, py) implies j
                    == k by {
                    if j < front.len() {
                        assert(front[j] == areas[j]);
                    }
                }
            } else {
                let k = choose|k: int|
                    0 <= k < front.len() && (#[trigger] front[k]).rect.covers(px, py) && forall|
                        j: int,
                    |
                        0 <= j < front.len() && (#[trigger] front[j]).rect.covers(px, py) ==> j
                            == k;
                assert(areas[k] == front[k]);
                assert(areas[k].rect.covers(px, py));
                assert forall|j: int|
                    0 <= j < areas.len() && (#[trigger] areas[j]).rect.covers(px, py) implies j
                    == k by {
                    if j < front.len() {
                        assert(front[j] == areas[j]);
                    }
                }
            }
        }
    }
}

/// Whether the rectangle that `pane` has in `map` holds the cell at column
/// `px`, row `py`.
pub open spec fn holds_cell(map: Map<usize, Rect>, pane: usize, px: int, py: int) -> bool {
    map.contains_key(pane) && map[pane].covers(px, py)
}

/// In the mapping that the layout of a tree makes, every cell of the
/// rectangle that was laid out lies in the rectangle of exactly one pane,
/// and a cell outside it in none. The tree is one whose splits have two
/// children or more and of whose leaves no two name one pane.
pub proof fn law_layout_map_tiles_the_rectangle(tree: Shape, rect: Rect, px: int, py: int)
    requires
        tree.well_formed(),
        tree.leaves_unique(),
    ensures
        rect.clipped().covers(px, py) ==> exists|pane: usize|
            #![trigger holds_cell(placed(Map::empty(), tree.layout(rect.clipped())), pane, px, py)]
            holds_cell(placed(Map::empty(), tree.layout(rect.clipped())), pane, px, py)
                && forall|other: usize|
                #![trigger holds_cell(placed(Map::empty(), tree.layout(rect.clipped())), other, px, py)]
                holds_cell(placed(Map::empty(), tree.layout(rect.clipped())), other, px, py)
                    ==> other == pane,
        !rect.clipped().covers(px, py) ==> forall|pane: usize|
            #![trigger holds_cell(placed(Map::empty(), tree.layout(rect.clipped())), pane, px, py)]
            !holds_cell(placed(Map::empty(), tree.layout(rect.clipped())), pane, px, py),
{
    let area = rect.clipped();
    let areas = tree.layout(area);
    let map = placed(Map::<usize, Rect>::empty(), areas);
    lemma_layout_tiles(tree, area);
    lemma_layout_map(tree, area);
    lemma_cover_count_one(areas, px, py);
    assert(cover_count(areas, px, py) == if area.covers(px, py) {
        1nat
    } else {
        0nat
    });
    assert forall|q: usize| holds_cell(map, q, px, py) implies exists|j: int|
        0 <= j < areas.len() && (#[trigger] areas[j]).pane == q && areas[j].rect.covers(px, py) by {
        lemma_placed_keys(Map::<usize, Rect>::empty(), areas, q);
        let j = choose|j: int| 0 <= j < areas.len() && (#[trigger] areas[j]).pane == q;
        assert(map[areas[j].pane] == areas[j].rect);
    }
    if area.covers(px, py) {
        let k = choose|k: int|
            0 <= k < areas.len() && (#[trigger] areas[k]).rect.covers(px, py) && forall|j: int|
                0 <= j < areas.len() && (#[trigger] areas[j]).rect.covers(px, py) ==> j == k;
        let pane = areas[k].pane;
        lemma_placed_keys(Map::<usize, Rect>::empty(), areas, pane);
        assert(map[areas[k].pane] == areas[k].rect);
        assert(holds_cell(map, pane, px, py));
        assert forall|other: usize| holds_cell(map, other, px, py) implies other == pane by {
            let j = choose|j: int|
                0 <= j < areas.len() && (#[trigger] areas[j]).pane == other
                    && areas[j].rect.covers(px, py);
            assert(j == k);
        }
    } else {
        assert forall|q: usize| !holds_cell(map, q, px, py) by {
            if holds_cell(map, q, px, py) {
                let j = choose|j: int|
                    0 <= j < areas.len() && (#[trigger] areas[j]).pane == q
                        && areas[j].rect.covers(px, py);
                assert(false);
            }
        }
    }
}

} // verus!
