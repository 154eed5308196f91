//! Placing mines on a blank board and counting them around each cell.

use crate::board::blank;
use crate::board::board_view;
use crate::board::cell_at;
use crate::board::count_state;
use crate::board::get_cell;
use crate::board::lemma_increment_counts;
use crate::board::set_cell;
use crate::board::shaped;
use crate::board::BoardState;
use crate::board::Point;
use crate::grid::adjacent;
use crate::grid::adjacent_mines;
use crate::grid::in_bounds;
use crate::grid::lemma_free_point_exists;
use crate::grid::neighbor_at;
use crate::grid::place_of;
use crate::grid::safe_zone;
use crate::grid::within_one;
use crate::platform::random_below;
use crate::points::PointSet;
use vstd::prelude::*;
use vstd::set_lib::lemma_len_union;

verus! {

/// How many draws in a row may land on a taken cell before the next mine
/// is put on the first free cell instead.
pub const MAX_REJECTED_DRAWS: usize = usize::MAX;

/// Every cell shows the number of mines of `mines` that touch it.
pub open spec fn counts_mines(
    board: Seq<Seq<BoardState>>,
    cols: usize,
    rows: usize,
    mines: Set<Point>,
) -> bool {
    forall|p: Point|
        in_bounds(cols, rows, p) ==> #[trigger] cell_at(board, p) == count_state(
            adjacent_mines(mines, p).len() as int,
        )
}

/// A new mine adds one to the count of each cell it touches and leaves
/// every other count as it was.
pub proof fn lemma_count_after_insert(mines: Set<Point>, m: Point, p: Point)
    requires
        mines.finite(),
        !mines.contains(m),
    ensures
        adjacent_mines(mines.insert(m), p).len() == adjacent_mines(mines, p).len() + if adjacent(
            m,
            p,
        ) {
            1nat
        } else {
            0nat
        },
{
    let before = adjacent_mines(mines, p);
    let after = adjacent_mines(mines.insert(m), p);
    if adjacent(m, p) {
        assert(after =~= before.insert(m));
    } else {
        assert(after =~= before);
    }
}

/// The safe zone of `p` as a point set.
pub fn safe_zone_points(cols: usize, rows: usize, p: Point) -> (zone: PointSet)
    ensures
        zone.wf(),
        zone@ == safe_zone(cols, rows, p),
{
    let mut zone = PointSet::new();
    let mut k: usize = 0;
    while k < 9
        invariant
            k <= 9,
            zone.wf(),
            forall|q: Point|
                #[trigger] zone@.contains(q) <==> in_bounds(cols, rows, q) && within_one(p, q)
                    && place_of(p, q) < k,
        decreases 9 - k,
    {
        match neighbor_at(p, k, cols, rows) {
            Some(q) => {
                zone.insert(q);
            },
            None => {},
        }
        k += 1;
    }
    zone
}

/// Adds one to the count of every cell that touches `m`.
pub fn bump_neighbors(board: &mut Vec<Vec<BoardState>>, cols: usize, rows: usize, m: Point)
    requires
        shaped(board_view(*old(board)), cols, rows),
    ensures
        shaped(board_view(*final(board)), cols, rows),
        forall|p: Point|
            in_bounds(cols, rows, p) ==> #[trigger] cell_at(board_view(*final(board)), p) == if adjacent(
                m,
                p,
            ) {
                cell_at(board_view(*old(board)), p).spec_increment()
            } else {
                cell_at(board_view(*old(board)), p)
            },
{
    let mut k: usize = 0;
    while k < 9
        invariant
            k <= 9,
            shaped(board_view(*board), cols, rows),
            forall|p: Point|
                in_bounds(cols, rows, p) ==> #[trigger] cell_at(board_view(*board), p) == if adjacent(
                    m,
                    p,
                ) && place_of(m, p) < k {
                    cell_at(board_view(*old(board)), p).spec_increment()
                } else {
                    cell_at(board_view(*old(board)), p)
                },
        decreases 9 - k,
    {
        if k != 4 {
            match neighbor_at(m, k, cols, rows) {
                Some(q) => {
                    let ghost before = board_view(*board);
                    assert(board_view(*board)[q.x as int].len() == rows);
                    let state = get_cell(board, q);
                    set_cell(board, cols, rows, q, state.increment());
                    assert forall|p: Point| in_bounds(cols, rows, p) implies #[trigger] cell_at(
                        board_view(*board),
                        p,
                    ) == if adjacent(m, p) && place_of(m, p) < k + 1 {
                        cell_at(board_view(*old(board)), p).spec_increment()
                    } else {
                        cell_at(board_view(*old(board)), p)
                    } by {
                        assert(cell_at(before, p) == if adjacent(m, p) && place_of(m, p) < k {
                            cell_at(board_view(*old(board)), p).spec_increment()
                        } else {
                            cell_at(board_view(*old(board)), p)
                        });
                    }
                },
                None => {},
            }
        }
        k += 1;
    }
}

/// The first free cell, column by column: on the grid, outside `safe` and
/// not in `mines`.
pub fn first_free_point(cols: usize, rows: usize, safe: &PointSet, mines: &PointSet) -> (p: Point)
    requires
        exists|q: Point| in_bounds(cols, rows, q) && !safe@.contains(q) && !mines@.contains(q),
    ensures
        in_bounds(cols, rows, p),
        !safe@.contains(p),
        !mines@.contains(p),
{
    let mut x: usize = 0;
    while x < cols
        invariant
            x <= cols,
            forall|q: Point|
                in_bounds(cols, rows, q) && q.x < x ==> safe@.contains(q) || mines@.contains(q),
        decreases cols - x,
    {
        let mut y: usize = 0;
        while y < rows
            invariant
                x < cols,
                y <= rows,
                forall|q: Point|
                    in_bounds(cols, rows, q) && (q.x < x || (q.x == x && q.y < y))
                        ==> safe@.contains(q) || mines@.contains(q),
            decreases rows - y,
        {
            let p = Point { x, y };
            if !safe.contains(&p) && !mines.contains(&p) {
                return p;
            }
            y += 1;
        }
        x += 1;
    }
    proof {
        // Every cell was found taken, yet one of them is free: this
        // place is never reached.
        let q = choose|q: Point|
            in_bounds(cols, rows, q) && !safe@.contains(q) && !mines@.contains(q);
        assert(q.x < x);
        assert(false);
    }
    Point { x: 0, y: 0 }
}

/// Chooses `mine_count` cells outside `safe` and counts, on a blank
/// board, how many of them touch each cell.
///
/// Each mine is drawn uniformly from the grid, and a draw that lands in
/// the safe zone or on a mine is repeated. After `MAX_REJECTED_DRAWS`
/// such draws in a row the mine goes on the first free cell, so that the
/// placement always ends.
pub fn place_mines(
    board: &mut Vec<Vec<BoardState>>,
    cols: usize,
    rows: usize,
    safe: &PointSet,
    mine_count: usize,
) -> (mines: PointSet)
    requires
        shaped(board_view(*old(board)), cols, rows),
        blank(board_view(*old(board)), cols, rows),
        cols * rows <= usize::MAX,
        safe.wf(),
        forall|q: Point| safe@.contains(q) ==> in_bounds(cols, rows, q),
        mine_count + safe@.len() <= cols * rows,
    ensures
        shaped(board_view(*final(board)), cols, rows),
        counts_mines(board_view(*final(board)), cols, rows, mines@),
        mines.wf(),
        mines@.len() == mine_count,
        forall|q: Point| mines@.contains(q) ==> in_bounds(cols, rows, q) && !safe@.contains(q),
{
    let mut mines = PointSet::new();
    let mut budget: usize = MAX_REJECTED_DRAWS;
    proof {
        assert forall|p: Point| in_bounds(cols, rows, p) implies #[trigger] cell_at(
            board_view(*board),
            p,
        ) == count_state(adjacent_mines(mines@, p).len() as int) by {
            assert(adjacent_mines(mines@, p) =~= Set::<Point>::empty());
        }
    }
    while mines.len() < mine_count
        invariant
            shaped(board_view(*board), cols, rows),
            counts_mines(board_view(*board), cols, rows, mines@),
            cols * rows <= usize::MAX,
            safe.wf(),
            forall|q: Point| safe@.contains(q) ==> in_bounds(cols, rows, q),
            mine_count + safe@.len() <= cols * rows,
            mines.wf(),
            mines@.len() <= mine_count,
            forall|q: Point| mines@.contains(q) ==> in_bounds(cols, rows, q) && !safe@.contains(q),
        decreases mine_count - mines@.len(), budget,
    {
        proof {
            mines.lemma_len();
            safe.lemma_len();
        }
        let ghost chosen = mines@;
        let point = if budget == 0 {
            proof {
                let taken = safe@.union(mines@);
                lemma_len_union(safe@, mines@);
                lemma_free_point_exists(taken, cols, rows);
            }
            first_free_point(cols, rows, safe, &mines)
        } else {
            assert(cols > 0 && rows > 0) by (nonlinear_arith)
                requires
                    cols * rows > 0,
            ;
            Point { x: random_below(cols), y: random_below(rows) }
        };
        if safe.contains(&point) {
            budget = budget - 1;
        } else if !mines.insert(point) {
            budget = budget - 1;
        } else {
            let ghost before = board_view(*board);
            bump_neighbors(board, cols, rows, point);
            budget = MAX_REJECTED_DRAWS;
            proof {
                mines.lemma_len();
                assert forall|p: Point| in_bounds(cols, rows, p) implies #[trigger] cell_at(
                    board_view(*board),
                    p,
                ) == count_state(adjacent_mines(mines@, p).len() as int) by {
                    lemma_count_after_insert(chosen, point, p);
                    lemma_increment_counts(adjacent_mines(chosen, p).len() as int);
                    assert(cell_at(before, p) == count_state(
                        adjacent_mines(chosen, p).len() as int,
                    ));
                }
            }
        }
    }
    proof {
        mines.lemma_len();
    }
    mines
}

/// Writes `Mine` to every cell of `mines`.
pub fn mark_mines(board: &mut Vec<Vec<BoardState>>, cols: usize, rows: usize, mines: &PointSet)
    requires
        shaped(board_view(*old(board)), cols, rows),
        forall|q: Point| mines@.contains(q) ==> in_bounds(cols, rows, q),
    ensures
        shaped(board_view(*final(board)), cols, rows),
        forall|p: Point|
            in_bounds(cols, rows, p) ==> #[trigger] cell_at(board_view(*final(board)), p) == if mines@.contains(
                p,
            ) {
                BoardState::Mine
            } else {
                cell_at(board_view(*old(board)), p)
            },
{
    let n = mines.len();
    let mut i: usize = 0;
    while i < n
        invariant
            i <= n,
            n == mines.elements().len(),
            shaped(board_view(*board), cols, rows),
            forall|q: Point| mines@.contains(q) ==> in_bounds(cols, rows, q),
            forall|p: Point|
                in_bounds(cols, rows, p) ==> #[trigger] cell_at(board_view(*board), p) == if mines.elements().subrange(
                    0,
                    i as int,
                ).contains(p) {
                    BoardState::Mine
                } else {
                    cell_at(board_view(*old(board)), p)
                },
        decreases n - i,
    {
        let m = mines.get(i);
        assert(mines@.contains(m));
        let ghost before = board_view(*board);
        set_cell(board, cols, rows, m, BoardState::Mine);
        proof {
            let done = mines.elements().subrange(0, i as int);
            let next = mines.elements().subrange(0, i + 1);
            assert forall|p: Point| in_bounds(cols, rows, p) implies #[trigger] cell_at(
                board_view(*board),
                p,
            ) == if next.contains(p) {
                BoardState::Mine
            } else {
                cell_at(board_view(*old(board)), p)
            } by {
                assert(cell_at(before, p) == if done.contains(p) {
                    BoardState::Mine
                } else {
                    cell_at(board_view(*old(board)), p)
                });
                if p == m {
                    assert(next[i as int] == m);
                }
            }
        }
        i += 1;
    }
    assert(mines.elements().subrange(0, n as int) =~= mines.elements());
}

} // verus!
