//! Checking a game against its invariant at run time, for games that
//! come from outside the library.

use crate::board::board_view;
use crate::board::cell_at;
use crate::board::count_state;
use crate::board::get_cell;
use crate::board::shaped;
use crate::board::BoardState;
use crate::board::Point;
use crate::game::MinesweeperGame;
use crate::grid::adjacent;
use crate::grid::adjacent_mines;
use crate::grid::in_bounds;
use crate::grid::neighbor_at;
use crate::grid::place_of;
use crate::points::PointSet;
use vstd::prelude::*;

verus! {

/// The numbered state for `n` adjacent mines.
pub fn state_of_count(n: usize) -> (state: BoardState)
    ensures
        state == count_state(n as int),
{
    match n {
        0 => BoardState::Zero,
        1 => BoardState::One,
        2 => BoardState::Two,
        3 => BoardState::Three,
        4 => BoardState::Four,
        5 => BoardState::Five,
        6 => BoardState::Six,
        7 => BoardState::Seven,
        _ => BoardState::Eight,
    }
}

/// The mines that touch `p` at a place before `k`.
pub open spec fn mines_before(mines: Set<Point>, p: Point, k: int) -> Set<Point> {
    mines.filter(|m: Point| adjacent(m, p) && place_of(p, m) < k)
}

/// Whether every point of `points` lies on the grid.
pub fn all_in_bounds(points: &PointSet, cols: usize, rows: usize) -> (b: bool)
    ensures
        b == forall|p: Point| #[trigger] points@.contains(p) ==> in_bounds(cols, rows, p),
{
    let n = points.len();
    let mut i: usize = 0;
    while i < n
        invariant
            i <= n,
            n == points.elements().len(),
            forall|j: int| 0 <= j < i ==> in_bounds(cols, rows, #[trigger] points.elements()[j]),
        decreases n - i,
    {
        let p = points.get(i);
        if p.x >= cols || p.y >= rows {
            assert(points@.contains(p));
            return false;
        }
        i += 1;
    }
    true
}

/// The number of mines among `mines` that touch `p`.
pub fn count_adjacent(mines: &PointSet, p: Point, cols: usize, rows: usize) -> (n: usize)
    requires
        forall|m: Point| #[trigger] mines@.contains(m) ==> in_bounds(cols, rows, m),
    ensures
        n == adjacent_mines(mines@, p).len(),
        n <= 8,
{
    let mut n: usize = 0;
    let mut k: usize = 0;
    proof {
        assert(mines_before(mines@, p, 0) =~= Set::<Point>::empty());
    }
    while k < 9
        invariant
            k <= 9,
            n <= k,
            k > 4 ==> n < k,
            forall|m: Point| #[trigger] mines@.contains(m) ==> in_bounds(cols, rows, m),
            mines_before(mines@, p, k as int).finite(),
            n == mines_before(mines@, p, k as int).len(),
        decreases 9 - k,
    {
        let ghost before = mines_before(mines@, p, k as int);
        let ghost after = mines_before(mines@, p, k + 1);
        let found = if k == 4 {
            None
        } else {
            neighbor_at(p, k, cols, rows)
        };
        match found {
            Some(q) => {
                if mines.contains(&q) {
                    assert(after =~= before.insert(q));
                    n += 1;
                } else {
                    assert(after =~= before);
                }
            },
            None => {
                assert(after =~= before);
            },
        }
        k += 1;
    }
    assert(mines_before(mines@, p, 9) =~= adjacent_mines(mines@, p));
    n
}

impl MinesweeperGame {
    /// Whether the game meets its invariant.
    pub fn is_well_formed(&self) -> (b: bool)
        requires
            self.moves.wf(),
            self.mine_points.wf(),
            self.flag_points.wf(),
        ensures
            b == self.wf(),
    {
        let cols = self.cols;
        let rows = self.rows;
        if self.board.len() != cols {
            return false;
        }
        let mut x: usize = 0;
        while x < cols
            invariant
                x <= cols,
                cols == self.cols,
                rows == self.rows,
                self.board@.len() == cols,
                forall|i: int| 0 <= i < x ==> (#[trigger] board_view(self.board)[i]).len() == rows,
            decreases cols - x,
        {
            if self.board[x].len() != rows {
                assert(board_view(self.board)[x as int].len() != rows);
                return false;
            }
            x += 1;
        }
        if cols.checked_mul(rows).is_none() {
            return false;
        }
        if !all_in_bounds(&self.moves, cols, rows) || !all_in_bounds(&self.mine_points, cols, rows)
            || !all_in_bounds(&self.flag_points, cols, rows) {
            return false;
        }
        if !self.mines_generated && !self.mine_points.is_empty() {
            return false;
        }
        let ghost g = self@;
        let mut x: usize = 0;
        while x < cols
            invariant
                x <= cols,
                g == self@,
                cols == self.cols,
                rows == self.rows,
                shaped(g.board, cols, rows),
                forall|m: Point| #[trigger] self.mine_points@.contains(m) ==> in_bounds(cols, rows, m),
                forall|p: Point|
                    in_bounds(cols, rows, p) && p.x < x ==> #[trigger] cell_at(g.board, p)
                        == self.expected_cell(p),
            decreases cols - x,
        {
            let mut y: usize = 0;
            while y < rows
                invariant
                    x < cols,
                    y <= rows,
                    g == self@,
                    cols == self.cols,
                    rows == self.rows,
                    shaped(g.board, cols, rows),
                    forall|m: Point| #[trigger]
                        self.mine_points@.contains(m) ==> in_bounds(cols, rows, m),
                    forall|p: Point|
                        in_bounds(cols, rows, p) && (p.x < x || (p.x == x && p.y < y))
                            ==> #[trigger] cell_at(g.board, p) == self.expected_cell(p),
                decreases rows - y,
            {
                let p = Point { x, y };
                assert(g.board[x as int].len() == rows);
                let expected = if !self.mines_generated {
                    BoardState::Zero
                } else if self.mine_points.contains(&p) {
                    BoardState::Mine
                } else {
                    state_of_count(count_adjacent(&self.mine_points, p, cols, rows))
                };
                if get_cell(&self.board, p) != expected {
                    return false;
                }
                y += 1;
            }
            x += 1;
        }
        true
    }

    /// What the invariant asks of the cell at `p`.
    pub open spec fn expected_cell(&self, p: Point) -> BoardState {
        if !self.mines_generated {
            BoardState::Zero
        } else if self.mine_points@.contains(p) {
            BoardState::Mine
        } else {
            count_state(adjacent_mines(self.mine_points@, p).len() as int)
        }
    }
}

} // verus!
