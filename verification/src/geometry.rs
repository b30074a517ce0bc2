use vstd::prelude::*;
use vstd::arithmetic::div_mod::{lemma_div_pos_is_pos, lemma_fundamental_div_mod, lemma_mod_bound};
use vstd::arithmetic::mul::{
    lemma_mul_inequality, lemma_mul_is_commutative, lemma_mul_is_distributive_add,
    lemma_mul_nonnegative,
};

verus! {

/// A rectangle of terminal cells: `width` columns from column `x` on,
/// `height` rows from row `y` on.
#[derive(Clone, Copy, Debug, PartialEq, Eq, Structural)]
pub struct Rect {
    pub x: u16,
    pub y: u16,
    pub width: u16,
    pub height: u16,
}

/// Where the `k`-th of `n` consecutive parts of a stretch of `len` cells
/// begins, counted from the start of the stretch. Every part is
/// `len / n` cells long but the last, which takes what is left.
pub open spec fn part_offset(len: int, n: int, k: int) -> int {
    k * (len / n)
}

/// How many cells the `k`-th of `n` consecutive parts of a stretch of `len`
/// cells holds.
pub open spec fn part_len(len: int, n: int, k: int) -> int {
    if k == n - 1 {
        len - k * (len / n)
    } else {
        len / n
    }
}

/// The parts lie inside the stretch, one behind the other, and the last
/// ends where the stretch ends.
pub proof fn lemma_parts(len: int, n: int, k: int)
    requires
        0 <= len,
        0 <= k < n,
    ensures
        0 <= part_offset(len, n, k),
        0 <= part_len(len, n, k),
        0 <= len / n <= len,
        part_offset(len, n, k) + part_len(len, n, k) <= len,
        k + 1 < n ==> part_offset(len, n, k + 1) == part_offset(len, n, k) + part_len(len, n, k),
        k + 1 == n ==> part_offset(len, n, k) + part_len(len, n, k) == len,
        part_offset(len, n, 0) == 0,
{
    let w = len / n;
    lemma_div_pos_is_pos(len, n);
    lemma_fundamental_div_mod(len, n);
    lemma_mod_bound(len, n);
    lemma_mul_is_commutative(n, w);
    // n * w <= len
    lemma_mul_nonnegative(k, w);
    lemma_mul_inequality(k + 1, n, w);
    lemma_mul_is_distributive_add(w, k, 1);
    lemma_mul_is_commutative(w, k + 1);
    lemma_mul_is_commutative(w, k);
    assert(w * 1 == w);
    assert((k + 1) * w == k * w + w);
    assert(0 * w == 0);
}

impl Rect {
    /// Whether the cell at column `px`, row `py` lies in the rectangle.
    pub open spec fn covers(self, px: int, py: int) -> bool {
        &&& self.x <= px < self.x + self.width
        &&& self.y <= py < self.y + self.height
    }

    /// Whether the rectangle ends at or before the last column and row that
    /// a screen can have.
    pub open spec fn on_screen(self) -> bool {
        &&& self.x + self.width <= u16::MAX
        &&& self.y + self.height <= u16::MAX
    }

    /// The rectangle cut off at the last column and row of the screen.
    pub open spec fn clipped(self) -> Rect {
        Rect {
            x: self.x,
            y: self.y,
            width: if self.x + self.width <= u16::MAX {
                self.width
            } else {
                (u16::MAX - self.x) as u16
            },
            height: if self.y + self.height <= u16::MAX {
                self.height
            } else {
                (u16::MAX - self.y) as u16
            },
        }
    }

    /// The `k`-th of `n` equal tiles of the rectangle along `columns` (side
    /// by side) or along rows (one below the other); the last tile takes
    /// the cells that the division leaves over.
    pub open spec fn tile(self, columns: bool, n: int, k: int) -> Rect {
        if columns {
            Rect {
                x: (self.x + part_offset(self.width as int, n, k)) as u16,
                y: self.y,
                width: part_len(self.width as int, n, k) as u16,
                height: self.height,
            }
        } else {
            Rect {
                x: self.x,
                y: (self.y + part_offset(self.height as int, n, k)) as u16,
                width: self.width,
                height: part_len(self.height as int, n, k) as u16,
            }
        }
    }

    /// A rectangle with the given corner and size, cut off at the last
    /// column and row of the screen.
    pub fn new(x: u16, y: u16, width: u16, height: u16) -> (r: Rect)
        ensures
            r == (Rect { x, y, width, height }).clipped(),
            r.on_screen(),
    {
        let width = if width <= u16::MAX - x {
            width
        } else {
            u16::MAX - x
        };
        let height = if height <= u16::MAX - y {
            height
        } else {
            u16::MAX - y
        };
        Rect { x, y, width, height }
    }

    /// Whether the cell at column `px`, row `py` lies in the rectangle.
    pub fn contains(&self, px: u16, py: u16) -> (inside: bool)
        ensures
            inside == self.covers(px as int, py as int),
    {
        px >= self.x && py >= self.y && (px - self.x) < self.width && (py - self.y) < self.height
    }

    /// The `k`-th of `n` equal tiles, side by side where `columns` holds and
    /// one below the other where not.
    pub fn nth_tile(&self, columns: bool, n: usize, k: usize) -> (t: Rect)
        requires
            self.on_screen(),
            k < n,
        ensures
            t == self.tile(columns, n as int, k as int),
            t.on_screen(),
    {
        let len: usize = if columns {
            self.width as usize
        } else {
            self.height as usize
        };
        proof {
            lemma_parts(len as int, n as int, k as int);
        }
        let each: usize = len / n;
        let offset: usize = k * each;
        let size: usize = if k == n - 1 {
            len - offset
        } else {
            each
        };
        if columns {
            Rect {
                x: self.x + (offset as u16),
                y: self.y,
                width: size as u16,
                height: self.height,
            }
        } else {
            Rect {
                x: self.x,
                y: self.y + (offset as u16),
                width: self.width,
                height: size as u16,
            }
        }
    }
}

} // verus!
