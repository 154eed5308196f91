//! What leaves the service: the view of a game that a player may see,
//! and the request that names a cell.

use crate::board::board_view;
use crate::board::cell_at;
use crate::board::get_cell;
use crate::board::set_cell;
use crate::board::shaped;
use crate::board::BoardState;
use crate::board::Point;
use crate::game::filled_board;
use crate::game::GameModel;
use crate::game::GameStatus;
use crate::game::MinesweeperGame;
use crate::grid::in_bounds;
use crate::platform::Timestamp;
use crate::points::PointSet;
use vstd::prelude::*;

verus! {

/// The view of a game: the board as the player sees it, the flags, the
/// status and the number of mines.
#[derive(Debug)]
pub struct MinesweeperGameDto {
    pub id: i32,
    pub board: Vec<Vec<BoardState>>,
    pub mine_count: usize,
    pub flag_points: PointSet,
    pub status: GameStatus,
    pub created_at: Timestamp,
}

/// The mathematical content of a view.
pub struct DtoModel {
    pub id: i32,
    pub board: Seq<Seq<BoardState>>,
    pub mine_count: nat,
    pub flag_points: Set<Point>,
    pub status: GameStatus,
    pub created_at: Timestamp,
}

impl View for MinesweeperGameDto {
    type V = DtoModel;

    open spec fn view(&self) -> DtoModel {
        DtoModel {
            id: self.id,
            board: board_view(self.board),
            mine_count: self.mine_count as nat,
            flag_points: self.flag_points@,
            status: self.status,
            created_at: self.created_at,
        }
    }
}

/// The view of the game `g`.
pub open spec fn projection(g: GameModel) -> DtoModel {
    DtoModel {
        id: g.id,
        board: g.shown_board(),
        mine_count: g.mine_count(),
        flag_points: g.flag_points,
        status: g.status(),
        created_at: g.created_at,
    }
}

impl MinesweeperGameDto {
    /// Projects a game to its view.
    pub fn from(game: &MinesweeperGame) -> (dto: MinesweeperGameDto)
        requires
            game.wf(),
        ensures
            dto@ == projection(game@),
            dto.flag_points.wf(),
    {
        let cols = game.cols;
        let rows = game.rows;
        let mut dto_board = filled_board(cols, rows, BoardState::Unknown);
        let ghost g = game@;

        let flags = game.flag_points.len();
        let mut i: usize = 0;
        while i < flags
            invariant
                i <= flags,
                flags == game.flag_points.elements().len(),
                g == game@,
                g.wf(),
                cols == g.cols,
                rows == g.rows,
                shaped(board_view(dto_board), cols, rows),
                forall|p: Point|
                    in_bounds(cols, rows, p) ==> #[trigger] cell_at(board_view(dto_board), p)
                        == if game.flag_points.elements().subrange(0, i as int).contains(p) {
                        BoardState::Flag
                    } else {
                        BoardState::Unknown
                    },
            decreases flags - i,
        {
            let flag = game.flag_points.get(i);
            assert(g.flag_points.contains(flag));
            let ghost before = board_view(dto_board);
            set_cell(&mut dto_board, cols, rows, flag, BoardState::Flag);
            proof {
                let done = game.flag_points.elements().subrange(0, i as int);
                let next = game.flag_points.elements().subrange(0, i + 1);
                assert forall|p: Point| in_bounds(cols, rows, p) implies #[trigger] cell_at(
                    board_view(dto_board),
                    p,
                ) == if next.contains(p) {
                    BoardState::Flag
                } else {
                    BoardState::Unknown
                } by {
                    assert(cell_at(before, p) == if done.contains(p) {
                        BoardState::Flag
                    } else {
                        BoardState::Unknown
                    });
                    if p == flag {
                        assert(next[i as int] == flag);
                    }
                }
            }
            i += 1;
        }
        assert(game.flag_points.elements().subrange(0, flags as int)
            =~= game.flag_points.elements());

        let moves = game.moves.len();
        let mut j: usize = 0;
        while j < moves
            invariant
                j <= moves,
                moves == game.moves.elements().len(),
                g == game@,
                g.wf(),
                cols == g.cols,
                rows == g.rows,
                shaped(board_view(dto_board), cols, rows),
                forall|p: Point|
                    in_bounds(cols, rows, p) ==> #[trigger] cell_at(board_view(dto_board), p)
                        == if game.moves.elements().subrange(0, j as int).contains(p) {
                        g.cell(p)
                    } else if g.flag_points.contains(p) {
                        BoardState::Flag
                    } else {
                        BoardState::Unknown
                    },
            decreases moves - j,
        {
            let mv = game.moves.get(j);
            assert(g.moves.contains(mv));
            assert(board_view(game.board)[mv.x as int].len() == rows);
            let ghost before = board_view(dto_board);
            set_cell(&mut dto_board, cols, rows, mv, get_cell(&game.board, mv));
            proof {
                let done = game.moves.elements().subrange(0, j as int);
                let next = game.moves.elements().subrange(0, j + 1);
                assert forall|p: Point| in_bounds(cols, rows, p) implies #[trigger] cell_at(
                    board_view(dto_board),
                    p,
                ) == if next.contains(p) {
                    g.cell(p)
                } else if g.flag_points.contains(p) {
                    BoardState::Flag
                } else {
                    BoardState::Unknown
                } by {
                    assert(cell_at(before, p) == if done.contains(p) {
                        g.cell(p)
                    } else if g.flag_points.contains(p) {
                        BoardState::Flag
                    } else {
                        BoardState::Unknown
                    });
                    if p == mv {
                        assert(next[j as int] == mv);
                    }
                }
            }
            j += 1;
        }
        assert(game.moves.elements().subrange(0, moves as int) =~= game.moves.elements());

        proof {
            let shown = g.shown_board();
            let built = board_view(dto_board);
            assert forall|x: int, y: int| 0 <= x < cols && 0 <= y < rows implies built[x][y]
                == shown[x][y] by {
                let p = Point { x: x as usize, y: y as usize };
                assert(cell_at(built, p) == g.shown(p));
            }
            assert(built =~~= shown);
        }
        MinesweeperGameDto {
            id: game.id,
            board: dto_board,
            mine_count: game.mine_count(),
            flag_points: game.flag_points.clone(),
            status: game.status(),
            created_at: game.created_at,
        }
    }
}

/// A request to reveal or flag the cell at column `x`, row `y`.
#[derive(Clone, Copy, Debug)]
pub struct MakeMoveRequest {
    pub x: usize,
    pub y: usize,
    pub game_id: Option<i32>,
}

/// The game and the cell that a request is about. The id in the path
/// goes before the one in the request; without either the id is 0.
pub fn extract_request_params(path: Option<i32>, req: MakeMoveRequest) -> (target: (i32, Point))
    ensures
        target.0 == match path {
            Some(id) => id,
            None => match req.game_id {
                Some(id) => id,
                None => 0,
            },
        },
        target.1 == (Point { x: req.x, y: req.y }),
{
    let game_id = match path {
        Some(id) => id,
        None => match req.game_id {
            Some(id) => id,
            None => 0,
        },
    };
    (game_id, Point { x: req.x, y: req.y })
}

} // verus!
