//! Grid geometry: cells, the order in which a rectangle of cells is scanned,
//! and the one-word key under which a cell is stored.
//!
//! A rectangle of `width` columns and `height` rows is scanned column by
//! column: `x` is the outer index, `y` the inner one, both increasing. The
//! position of a cell in that order is its *rank*.

use vstd::prelude::*;
use vstd::arithmetic::div_mod::lemma_fundamental_div_mod_converse;
use vstd::arithmetic::mul::lemma_mul_inequality;
use vstd::arithmetic::mul::lemma_mul_is_distributive_add_other_way;

verus! {

/// A position in a grid: column `x`, row `y`.
#[derive(Clone, Copy, Debug, PartialEq, Eq, Structural)]
pub struct Cell {
    pub x: u32,
    pub y: u32,
}

/// Where a noise source is asked for a value: the normalized position
/// `(x / width, y / height)`, kept as the two numerators and the two
/// denominators so that no division happens on this side.
///
/// Every point that this library hands out has `x < width` and `y < height`;
/// in particular neither denominator is zero.
#[derive(Clone, Copy, Debug, PartialEq, Eq, Structural)]
pub struct SamplePoint {
    pub x: u32,
    pub y: u32,
    pub width: u32,
    pub height: u32,
}

/// The number of keys that share one column.
pub const COLUMN_STRIDE: u64 = 0x1_0000_0000;

/// `c` lies in the rectangle of `width` columns and `height` rows.
pub open spec fn in_extent(c: Cell, width: u32, height: u32) -> bool {
    c.x < width && c.y < height
}

/// The number of cells in the rectangle.
pub open spec fn extent_size(width: u32, height: u32) -> nat {
    (width as nat) * (height as nat)
}

/// The position of `c` in the scan of a rectangle with `height` rows.
pub open spec fn scan_rank(c: Cell, height: u32) -> int {
    c.x * height + c.y
}

/// The cell at position `rank` in the scan of a rectangle with `height` rows.
pub open spec fn scan_cell(rank: int, height: u32) -> Cell {
    Cell { x: (rank / (height as int)) as u32, y: (rank % (height as int)) as u32 }
}

/// `a` is scanned before `b`.
pub open spec fn scanned_before(a: Cell, b: Cell) -> bool {
    a.x < b.x || (a.x == b.x && a.y < b.y)
}

/// The point at which the noise is read for cell `c` of the rectangle.
pub open spec fn sample_point_of(c: Cell, width: u32, height: u32) -> SamplePoint {
    SamplePoint { x: c.x, y: c.y, width, height }
}

/// The key under which `c` is stored.
pub open spec fn key_of(c: Cell) -> u64 {
    (c.x * COLUMN_STRIDE + c.y) as u64
}

/// The cell that is stored under `key`.
pub open spec fn cell_of(key: u64) -> Cell {
    Cell { x: (key / COLUMN_STRIDE) as u32, y: (key % COLUMN_STRIDE) as u32 }
}

/// The cells of the rectangle.
pub open spec fn cells_in(width: u32, height: u32) -> Set<Cell> {
    Set::new(|c: Cell| in_extent(c, width, height))
}

/// The cells of a rectangle with `height` rows whose rank is below `bound`.
spec fn cells_below(bound: nat, height: u32) -> Set<Cell> {
    Set::new(|c: Cell| c.y < height && scan_rank(c, height) < bound)
}

/// Keys and cells correspond one to one: no two cells share a key, and every
/// key belongs to a cell.
pub proof fn lemma_key_round_trip(c: Cell, key: u64)
    ensures
        cell_of(key_of(c)) == c,
        key_of(cell_of(key)) == key,
{
}

/// A rectangle is without cells exactly when it has no columns or no rows.
pub proof fn lemma_empty_extent(width: u32, height: u32)
    ensures
        extent_size(width, height) == 0 <==> width == 0 || height == 0,
{
    assert(extent_size(width, height) == 0 <==> width == 0 || height == 0) by (nonlinear_arith)
        requires
            extent_size(width, height) == (width as nat) * (height as nat),
    ;
}

/// The ranks of the cells of a rectangle are the numbers below its size.
pub proof fn lemma_scan_rank_in_range(c: Cell, width: u32, height: u32)
    requires
        in_extent(c, width, height),
    ensures
        0 <= scan_rank(c, height) < extent_size(width, height),
{
    let x = c.x as int;
    let w = width as int;
    let h = height as int;
    assert(0 <= x * h) by (nonlinear_arith)
        requires
            0 <= x,
            0 <= h,
    ;
    assert((x + 1) * h <= w * h) by {
        lemma_mul_inequality(x + 1, w, h);
    }
    assert((x + 1) * h == x * h + h) by {
        lemma_mul_is_distributive_add_other_way(h, x, 1);
    }
}

/// Rank and cell are inverse to each other on a rectangle: the scan visits
/// every cell exactly once.
pub proof fn lemma_scan_round_trip(c: Cell, rank: int, width: u32, height: u32)
    ensures
        in_extent(c, width, height) ==> scan_cell(scan_rank(c, height), height) == c,
        0 <= rank < extent_size(width, height) ==> in_extent(scan_cell(rank, height), width, height)
            && scan_rank(scan_cell(rank, height), height) == rank,
{
    let h = height as int;
    if in_extent(c, width, height) {
        lemma_fundamental_div_mod_converse(scan_rank(c, height), h, c.x as int, c.y as int);
    }
    if 0 <= rank < extent_size(width, height) {
        let w = width as int;
        assert(h > 0) by (nonlinear_arith)
            requires
                0 <= rank < w * h,
                0 <= w,
                0 <= h,
        ;
        let q = rank / h;
        let r = rank % h;
        assert(rank == h * q + r && 0 <= r < h) by {
            vstd::arithmetic::div_mod::lemma_fundamental_div_mod(rank, h);
            vstd::arithmetic::div_mod::lemma_mod_bound(rank, h);
        }
        assert(0 <= q < w) by (nonlinear_arith)
            requires
                rank == h * q + r,
                0 <= r < h,
                0 <= rank < w * h,
        ;
        assert(h * q == q * h) by (nonlinear_arith);
    }
}

/// The scan is column by column: of two cells of a rectangle, the one with
/// the smaller column, or in one column the one with the smaller row, has the
/// smaller rank.
pub proof fn lemma_scan_order(a: Cell, b: Cell, height: u32)
    requires
        a.y < height,
        b.y < height,
    ensures
        scan_rank(a, height) < scan_rank(b, height) <==> scanned_before(a, b),
{
    let h = height as int;
    let ax = a.x as int;
    let bx = b.x as int;
    if ax < bx {
        assert((ax + 1) * h <= bx * h) by {
            lemma_mul_inequality(ax + 1, bx, h);
        }
        assert((ax + 1) * h == ax * h + h) by {
            lemma_mul_is_distributive_add_other_way(h, ax, 1);
        }
    } else if bx < ax {
        assert((bx + 1) * h <= ax * h) by {
            lemma_mul_inequality(bx + 1, ax, h);
        }
        assert((bx + 1) * h == bx * h + h) by {
            lemma_mul_is_distributive_add_other_way(h, bx, 1);
        }
    }
}

/// The first `bound` cells of the scan are that many.
proof fn lemma_cells_below_counted(bound: nat, width: u32, height: u32)
    requires
        bound <= extent_size(width, height),
    ensures
        cells_below(bound, height).finite(),
        cells_below(bound, height).len() == bound,
    decreases bound,
{
    if bound == 0 {
        assert forall|c: Cell| !cells_below(0, height).contains(c) by {
            assert(0 <= c.x * height) by (nonlinear_arith);
        }
        assert(cells_below(0, height) =~= Set::empty());
    } else {
        let rest = (bound - 1) as nat;
        let last = scan_cell(rest as int, height);
        lemma_cells_below_counted(rest, width, height);
        lemma_scan_round_trip(last, rest as int, width, height);
        assert forall|c: Cell|
            cells_below(bound, height).contains(c) <==> cells_below(rest, height).insert(
                last,
            ).contains(c) by {
            if c.y < height && scan_rank(c, height) == rest {
                lemma_fundamental_div_mod_converse(
                    rest as int,
                    height as int,
                    c.x as int,
                    c.y as int,
                );
            }
        }
        assert(cells_below(bound, height) =~= cells_below(rest, height).insert(last));
    }
}

/// A rectangle has `width * height` cells.
pub proof fn lemma_extent_counted(width: u32, height: u32)
    ensures
        cells_in(width, height).finite(),
        cells_in(width, height).len() == extent_size(width, height),
{
    let size = extent_size(width, height);
    lemma_cells_below_counted(size, width, height);
    assert forall|c: Cell|
        cells_in(width, height).contains(c) <==> cells_below(size, height).contains(c) by {
        if in_extent(c, width, height) {
            lemma_scan_rank_in_range(c, width, height);
        }
        if c.y < height && scan_rank(c, height) < size && c.x >= width {
            let x = c.x as int;
            let w = width as int;
            let h = height as int;
            assert(w * h <= x * h) by {
                lemma_mul_inequality(w, x, h);
            }
        }
    }
    assert(cells_in(width, height) =~= cells_below(size, height));
}

/// Computes the key of the cell in column `x` and row `y`.
pub fn cell_key(x: u32, y: u32) -> (key: u64)
    ensures
        key == key_of(Cell { x, y }),
{
    (x as u64) * COLUMN_STRIDE + (y as u64)
}

} // verus!
