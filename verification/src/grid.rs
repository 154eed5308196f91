//! Geometry of a `cols` by `rows` grid: which points lie on it, which
//! points touch each other, and how many points there are.

use crate::board::Point;
use vstd::prelude::*;
use vstd::set_lib::lemma_len_subset;
use vstd::set_lib::lemma_len_union;
use vstd::set_lib::lemma_set_disjoint_lens;

verus! {

/// `p` lies on a grid of `cols` columns and `rows` rows.
pub open spec fn in_bounds(cols: usize, rows: usize, p: Point) -> bool {
    p.x < cols && p.y < rows
}

/// All points of the grid.
pub open spec fn grid_points(cols: usize, rows: usize) -> Set<Point> {
    Set::new(|p: Point| in_bounds(cols, rows, p))
}

/// The points of column `x`.
pub open spec fn column_points(x: usize, rows: usize) -> Set<Point> {
    Set::new(|p: Point| p.x == x && p.y < rows)
}

/// `a` and `b` are at Chebyshev distance at most one.
pub open spec fn within_one(a: Point, b: Point) -> bool {
    -1 <= a.x - b.x <= 1 && -1 <= a.y - b.y <= 1
}

/// `a` and `b` are distinct and touch, by a side or by a corner.
pub open spec fn adjacent(a: Point, b: Point) -> bool {
    a != b && within_one(a, b)
}

/// The grid points at Chebyshev distance at most one from `p`: its
/// three by three neighbourhood, clipped to the grid.
pub open spec fn safe_zone(cols: usize, rows: usize, p: Point) -> Set<Point> {
    Set::new(|q: Point| in_bounds(cols, rows, q) && within_one(p, q))
}

/// The mines among `mines` that touch `p`.
pub open spec fn adjacent_mines(mines: Set<Point>, p: Point) -> Set<Point> {
    mines.filter(|m: Point| adjacent(m, p))
}

/// The place of `q` in the neighbourhood of `p`, counted column by column
/// from 0 to 8; `p` itself has place 4.
pub open spec fn place_of(p: Point, q: Point) -> int {
    (q.x - p.x + 1) * 3 + (q.y - p.y + 1)
}

pub proof fn lemma_column_size(x: usize, rows: usize)
    ensures
        column_points(x, rows).finite(),
        column_points(x, rows).len() == rows,
    decreases rows,
{
    if rows == 0 {
        assert(column_points(x, rows) =~= Set::<Point>::empty());
    } else {
        let below = (rows - 1) as usize;
        lemma_column_size(x, below);
        let top = Point { x, y: below };
        assert(column_points(x, rows) =~= column_points(x, below).insert(top));
    }
}

/// A grid of `cols` columns and `rows` rows has `cols * rows` points.
pub proof fn lemma_grid_size(cols: usize, rows: usize)
    ensures
        grid_points(cols, rows).finite(),
        grid_points(cols, rows).len() == cols * rows,
    decreases cols,
{
    if cols == 0 {
        assert(grid_points(cols, rows) =~= Set::<Point>::empty());
    } else {
        let left = (cols - 1) as usize;
        lemma_grid_size(left, rows);
        lemma_column_size(left, rows);
        let a = grid_points(left, rows);
        let b = column_points(left, rows);
        assert(grid_points(cols, rows) =~= a.union(b));
        lemma_set_disjoint_lens(a, b);
        assert(left * rows + rows == cols * rows) by (nonlinear_arith)
            requires
                left + 1 == cols,
        ;
    }
}

/// A set of grid points is finite and no larger than the grid.
pub proof fn lemma_points_fit(s: Set<Point>, cols: usize, rows: usize)
    requires
        forall|p: Point| s.contains(p) ==> in_bounds(cols, rows, p),
    ensures
        s.finite(),
        s.len() <= cols * rows,
{
    lemma_grid_size(cols, rows);
    let g = grid_points(cols, rows);
    lemma_len_subset(s, g);
}

/// A set of grid points that is smaller than the grid misses a grid point.
pub proof fn lemma_free_point_exists(s: Set<Point>, cols: usize, rows: usize)
    requires
        s.finite(),
        s.len() < cols * rows,
    ensures
        exists|p: Point| in_bounds(cols, rows, p) && !s.contains(p),
{
    lemma_grid_size(cols, rows);
    let g = grid_points(cols, rows);
    if forall|p: Point| in_bounds(cols, rows, p) ==> s.contains(p) {
        lemma_len_subset(g, s);
    }
}

/// The point at offset `(dx, dy)` from `p`, as a set: empty where the
/// offset leads out of the range of the coordinates.
pub open spec fn shifted(p: Point, dx: int, dy: int) -> Set<Point> {
    if 0 <= p.x + dx <= usize::MAX && 0 <= p.y + dy <= usize::MAX {
        set![Point { x: (p.x + dx) as usize, y: (p.y + dy) as usize }]
    } else {
        Set::empty()
    }
}

/// The points that touch `p`.
pub open spec fn ring(p: Point) -> Set<Point> {
    shifted(p, -1, -1).union(shifted(p, -1, 0)).union(shifted(p, -1, 1)).union(
        shifted(p, 0, -1),
    ).union(shifted(p, 0, 1)).union(shifted(p, 1, -1)).union(shifted(p, 1, 0)).union(
        shifted(p, 1, 1),
    )
}

/// At most eight points touch a point.
pub proof fn lemma_ring_size(p: Point)
    ensures
        ring(p).finite(),
        ring(p).len() <= 8,
        forall|m: Point| adjacent(m, p) ==> #[trigger] ring(p).contains(m),
{
    let a = shifted(p, -1, -1);
    let b = a.union(shifted(p, -1, 0));
    let c = b.union(shifted(p, -1, 1));
    let d = c.union(shifted(p, 0, -1));
    let e = d.union(shifted(p, 0, 1));
    let f = e.union(shifted(p, 1, -1));
    let g = f.union(shifted(p, 1, 0));
    lemma_shifted_size(p, -1, -1);
    lemma_shifted_size(p, -1, 0);
    lemma_shifted_size(p, -1, 1);
    lemma_shifted_size(p, 0, -1);
    lemma_shifted_size(p, 0, 1);
    lemma_shifted_size(p, 1, -1);
    lemma_shifted_size(p, 1, 0);
    lemma_shifted_size(p, 1, 1);
    lemma_len_union(a, shifted(p, -1, 0));
    lemma_len_union(b, shifted(p, -1, 1));
    lemma_len_union(c, shifted(p, 0, -1));
    lemma_len_union(d, shifted(p, 0, 1));
    lemma_len_union(e, shifted(p, 1, -1));
    lemma_len_union(f, shifted(p, 1, 0));
    lemma_len_union(g, shifted(p, 1, 1));
}

proof fn lemma_shifted_size(p: Point, dx: int, dy: int)
    ensures
        shifted(p, dx, dy).finite(),
        shifted(p, dx, dy).len() <= 1,
{
}

/// No cell is touched by more than eight mines.
pub proof fn lemma_at_most_eight(mines: Set<Point>, p: Point)
    requires
        mines.finite(),
    ensures
        adjacent_mines(mines, p).len() <= 8,
{
    lemma_ring_size(p);
    lemma_len_subset(adjacent_mines(mines, p), ring(p));
}

/// The grid point at place `k` of the neighbourhood of `p`, if that place
/// is on the grid.
pub fn neighbor_at(p: Point, k: usize, cols: usize, rows: usize) -> (r: Option<Point>)
    requires
        k < 9,
    ensures
        match r {
            Some(q) => in_bounds(cols, rows, q) && within_one(p, q) && place_of(p, q) == k,
            None => forall|q: Point|
                in_bounds(cols, rows, q) && within_one(p, q) ==> place_of(p, q) != k,
        },
{
    let dx: usize = k / 3;
    let dy: usize = k % 3;
    if (dx == 0 && p.x == 0) || (dy == 0 && p.y == 0) {
        return None;
    }
    if (dx == 2 && p.x == usize::MAX) || (dy == 2 && p.y == usize::MAX) {
        return None;
    }
    let x: usize = if dx == 0 {
        p.x - 1
    } else if dx == 1 {
        p.x
    } else {
        p.x + 1
    };
    let y: usize = if dy == 0 {
        p.y - 1
    } else if dy == 1 {
        p.y
    } else {
        p.y + 1
    };
    if x < cols && y < rows {
        Some(Point { x, y })
    } else {
        None
    }
}

} // verus!
