//! The board engine: where the mines go, and which cells a click reveals.

use crate::board::board_view;
use crate::board::cell_at;
use crate::board::count_state;
use crate::board::get_cell;
use crate::board::BoardState;
use crate::board::Point;
use crate::flood::flood_region;
use crate::flood::lemma_closed_holds_reached;
use crate::flood::lemma_reach_start;
use crate::flood::lemma_reach_step;
use crate::flood::reach_within;
use crate::flood::reachable;
use crate::flood::spreads;
use crate::flood::visit_neighbors;
use crate::game::GameModel;
use crate::game::MinesweeperGame;
use crate::grid::adjacent_mines;
use crate::grid::in_bounds;
use crate::grid::lemma_points_fit;
use crate::grid::safe_zone;
use crate::mines::mark_mines;
use crate::mines::place_mines;
use crate::mines::safe_zone_points;
use crate::points::PointSet;
use std::collections::VecDeque;
use vstd::prelude::*;

verus! {

/// The number of mines that generation places: the requested number, or
/// as many as fit outside the safe zone of the first click if that is less.
pub open spec fn mines_to_place(g: GameModel, first_click: Point) -> int {
    let room = g.cols * g.rows - safe_zone(g.cols, g.rows, first_click).len();
    if g.mine_count_target < room {
        g.mine_count_target as int
    } else {
        room
    }
}

/// `after` is `before` with its mines generated for a first click at
/// `first_click`: the safe zone holds no mine, the number of mines is
/// `mines_to_place`, the board counts them, and nothing else has changed.
pub open spec fn generated_from(after: GameModel, before: GameModel, first_click: Point) -> bool {
    &&& after.wf()
    &&& after.mines_generated
    &&& after.mine_points.disjoint(safe_zone(before.cols, before.rows, first_click))
    &&& after.mine_points.len() == mines_to_place(before, first_click)
    &&& after == GameModel {
        board: after.board,
        mine_points: after.mine_points,
        mines_generated: true,
        ..before
    }
}

/// The cells that a click at `p` reveals: `p` alone while no mines are
/// generated; every mine if `p` is a mine; the open area of `p` if `p` is
/// a `Zero` cell; `p` alone if it shows a number.
pub open spec fn reveal_set(g: GameModel, p: Point) -> Set<Point> {
    if !g.mines_generated {
        set![p]
    } else if g.cell(p) == BoardState::Mine {
        g.mine_points
    } else if g.cell(p) == BoardState::Zero {
        flood_region(g, p)
    } else {
        set![p]
    }
}

/// What a board engine does: it generates the mines of a game and says
/// which cells a click reveals.
pub trait BoardEngine {
    /// Generates the mines of `game` for a first click at `first_click`;
    /// does nothing if they are generated already.
    fn generate_mines(&self, game: &mut MinesweeperGame, first_click: Point)
        requires
            old(game).wf(),
        ensures
            final(game).wf(),
            old(game)@.mines_generated ==> final(game)@ == old(game)@,
            !old(game)@.mines_generated ==> generated_from(final(game)@, old(game)@, first_click),
    ;

    /// The cells to reveal for a click at `p`, each once.
    fn get_reveal_points(&self, game: &MinesweeperGame, p: Point) -> (points: Vec<Point>)
        requires
            game.wf(),
            game@.mines_generated ==> game@.on_board(p),
        ensures
            points@.no_duplicates(),
            points@.to_set() == reveal_set(game@, p),
    ;
}

/// The engine of the classic game: mines drawn at random outside the
/// safe zone, and a breadth-first walk over the open area.
pub struct MinesweeperEngine;

impl BoardEngine for MinesweeperEngine {
    fn generate_mines(&self, game: &mut MinesweeperGame, first_click: Point) {
        if game.mines_generated {
            return ;
        }
        let cols = game.cols;
        let rows = game.rows;
        let safe = safe_zone_points(cols, rows, first_click);
        proof {
            lemma_points_fit(safe@, cols, rows);
            safe.lemma_len();
        }
        let max_mines = (cols * rows).saturating_sub(safe.len());
        let mine_count = if game.mine_count_target < max_mines {
            game.mine_count_target
        } else {
            max_mines
        };
        let mines = place_mines(&mut game.board, cols, rows, &safe, mine_count);
        let ghost counted = board_view(game.board);
        mark_mines(&mut game.board, cols, rows, &mines);
        game.mine_points = mines;
        game.mines_generated = true;
        proof {
            let before = old(game)@;
            let after = game@;
            game.mine_points.lemma_len();
            assert forall|p: Point| in_bounds(cols, rows, p) implies #[trigger] cell_at(
                after.board,
                p,
            ) == if after.mine_points.contains(p) {
                BoardState::Mine
            } else {
                count_state(adjacent_mines(after.mine_points, p).len() as int)
            } by {
                assert(cell_at(counted, p) == count_state(
                    adjacent_mines(after.mine_points, p).len() as int,
                ));
            }
            assert(after == GameModel {
                board: after.board,
                mine_points: after.mine_points,
                mines_generated: true,
                ..before
            });
        }
    }

    fn get_reveal_points(&self, game: &MinesweeperGame, p: Point) -> (points: Vec<Point>) {
        if !game.mines_generated {
            return single(p);
        }
        assert(board_view(game.board)[p.x as int].len() == game.rows);
        match get_cell(&game.board, p) {
            BoardState::Zero => self.get_zero_moves(game, p),
            BoardState::Mine => game.mine_points.to_vec(),
            _ => single(p),
        }
    }
}

impl MinesweeperEngine {
    /// The open area of `start`, each cell once, in the order in which a
    /// breadth-first walk from `start` meets them: `start` comes first.
    pub fn get_zero_moves(&self, game: &MinesweeperGame, start: Point) -> (points: Vec<Point>)
        requires
            game.wf(),
            game@.on_board(start),
        ensures
            points@.no_duplicates(),
            points@.to_set() == flood_region(game@, start),
            points@.len() > 0 && points@[0] == start,
    {
        let cols = game.cols;
        let rows = game.rows;
        let mut points: Vec<Point> = Vec::new();
        let mut visited = PointSet::new();
        let mut queue: VecDeque<Point> = VecDeque::new();
        queue.push_back(start);
        visited.insert(start);
        proof {
            lemma_reach_start(game@, start);
        }
        while queue.len() > 0
            invariant
                game.wf(),
                cols == game.cols,
                rows == game.rows,
                visited.wf(),
                visited.elements() == points@ + queue@,
                visited.elements().len() > 0 && visited.elements()[0] == start,
                visited@.contains(start),
                forall|q: Point| #[trigger]
                    visited@.contains(q) ==> game@.on_board(q) && reachable(game@, start, q),
                forall|i: int, m: Point|
                    0 <= i < points@.len() && #[trigger] spreads(game@, points@[i], m)
                        ==> visited@.contains(m),
            decreases cols * rows - visited.elements().len() + queue@.len(),
        {
            proof {
                lemma_points_fit(visited@, cols, rows);
                visited.lemma_len();
            }
            let ghost done = points@;
            let ghost waiting = queue@;
            let ghost seen = visited@;
            match queue.pop_front() {
                Some(p) => {
                    points.push(p);
                    assert(points@ + queue@ =~= done + waiting);
                    assert(visited.elements()[done.len() as int] == p);
                    assert(seen.contains(p));
                    assert(board_view(game.board)[p.x as int].len() == rows);
                    if get_cell(&game.board, p) == BoardState::Zero {
                        let ghost left = queue@;
                        visit_neighbors(p, cols, rows, &mut visited, &mut queue);
                        proof {
                            let added = choose|added: Seq<Point>|
                                visited.elements() == #[trigger] ((points@ + left) + added)
                                    && queue@ == left + added;
                            assert forall|q: Point| seen.contains(q) implies visited@.contains(
                                q,
                            ) by {
                                let j = choose|j: int|
                                    0 <= j < (done + waiting).len() && (done + waiting)[j] == q;
                                assert(visited.elements()[j] == q);
                            }
                            assert forall|q: Point| #[trigger]
                                visited@.contains(q) implies game@.on_board(q) && reachable(
                                game@,
                                start,
                                q,
                            ) by {
                                if !seen.contains(q) {
                                    lemma_reach_step(game@, start, p, q);
                                }
                            }
                            assert(visited.elements().len() == seen.len() + added.len()) by {
                                visited.lemma_len();
                            }
                        }
                    }
                },
                None => {},
            }
        }
        proof {
            let region = flood_region(game@, start);
            assert forall|q: Point| visited@.contains(q) <==> region.contains(q) by {
                if reachable(game@, start, q) {
                    let n = choose|n: nat| #[trigger] reach_within(game@, start, q, n);
                    lemma_closed_holds_reached(game@, start, visited@, q, n);
                }
            }
        }
        points
    }
}

/// The vector that holds `p` and nothing else.
fn single(p: Point) -> (points: Vec<Point>)
    ensures
        points@ == seq![p],
        points@.no_duplicates(),
        points@.to_set() == set![p],
{
    let mut points: Vec<Point> = Vec::new();
    points.push(p);
    assert(points@.to_set() =~= set![p]) by {
        assert(points@[0] == p);
    }
    points
}

} // verus!
