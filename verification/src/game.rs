//! The game: its board, what the player has revealed and flagged, and
//! the status that follows from them.

use crate::board::blank;
use crate::board::board_view;
use crate::board::cell_at;
use crate::board::shaped;
use crate::board::count_state;
use crate::board::BoardState;
use crate::board::Point;
use crate::grid::adjacent_mines;
use crate::grid::in_bounds;
use crate::grid::lemma_points_fit;
use crate::platform::now;
use crate::platform::random_below;
use crate::platform::Timestamp;
use crate::points::PointSet;
use vstd::prelude::*;

verus! {

#[derive(Clone, Copy, Debug, PartialEq, Eq, Structural)]
pub enum GameStatus {
    InProgress,
    Won,
    Lost,
}

/// A game as stored. The board holds the true cell states, column by
/// column; what the player sees is derived from it (see `MinesweeperGameDto`).
#[derive(Debug)]
pub struct MinesweeperGame {
    pub id: i32,
    pub board: Vec<Vec<BoardState>>,
    pub moves: PointSet,
    pub mine_points: PointSet,
    pub flag_points: PointSet,
    pub created_at: Timestamp,
    pub mines_generated: bool,
    pub cols: usize,
    pub rows: usize,
    pub mine_count_target: usize,
}

/// The mathematical content of a game.
pub struct GameModel {
    pub id: i32,
    pub board: Seq<Seq<BoardState>>,
    pub moves: Set<Point>,
    pub mine_points: Set<Point>,
    pub flag_points: Set<Point>,
    pub created_at: Timestamp,
    pub mines_generated: bool,
    pub cols: usize,
    pub rows: usize,
    pub mine_count_target: usize,
}

impl GameModel {
    pub open spec fn on_board(self, p: Point) -> bool {
        in_bounds(self.cols, self.rows, p)
    }

    /// The true state of the cell at `p`.
    pub open spec fn cell(self, p: Point) -> BoardState {
        cell_at(self.board, p)
    }

    /// The board has `cols` columns of `rows` cells.
    pub open spec fn board_shaped(self) -> bool {
        shaped(self.board, self.cols, self.rows)
    }

    /// Every cell is `Zero`.
    pub open spec fn board_blank(self) -> bool {
        blank(self.board, self.cols, self.rows)
    }

    /// Mine cells hold `Mine`; every other cell holds the number of mines
    /// that touch it.
    pub open spec fn board_counts_mines(self) -> bool {
        forall|p: Point|
            in_bounds(self.cols, self.rows, p) ==> #[trigger] cell_at(self.board, p) == if self.mine_points.contains(
                p,
            ) {
                BoardState::Mine
            } else {
                count_state(adjacent_mines(self.mine_points, p).len() as int)
            }
    }

    /// The invariant of a game: the board has its shape and fits in
    /// memory, all recorded points lie on it, and it is blank without
    /// mines until mines are generated and counts the mines afterwards.
    pub open spec fn wf(self) -> bool {
        &&& self.board_shaped()
        &&& self.cols * self.rows <= usize::MAX
        &&& self.moves.finite()
        &&& self.mine_points.finite()
        &&& self.flag_points.finite()
        &&& forall|p: Point| #[trigger] self.moves.contains(p) ==> self.on_board(p)
        &&& forall|p: Point| #[trigger] self.mine_points.contains(p) ==> self.on_board(p)
        &&& forall|p: Point| #[trigger] self.flag_points.contains(p) ==> self.on_board(p)
        &&& !self.mines_generated ==> self.mine_points == Set::<Point>::empty()
            && self.board_blank()
        &&& self.mines_generated ==> self.board_counts_mines()
    }

    /// Lost: mines are generated and a mine is revealed.
    pub open spec fn is_lost(self) -> bool {
        self.mines_generated && exists|p: Point|
            self.mine_points.contains(p) && self.moves.contains(p)
    }

    /// Won: mines are generated, no mine is revealed and every other cell is.
    pub open spec fn is_won(self) -> bool {
        &&& self.mines_generated
        &&& !self.is_lost()
        &&& self.moves.len() == self.cols * self.rows - self.mine_points.len()
    }

    pub open spec fn is_over(self) -> bool {
        self.is_won() || self.is_lost()
    }

    /// What the player sees at `p`: the true state of a revealed cell,
    /// `Flag` on a flagged cell that is not revealed, `Unknown` elsewhere.
    pub open spec fn shown(self, p: Point) -> BoardState {
        if self.moves.contains(p) {
            self.cell(p)
        } else if self.flag_points.contains(p) {
            BoardState::Flag
        } else {
            BoardState::Unknown
        }
    }

    /// The board as the player sees it.
    pub open spec fn shown_board(self) -> Seq<Seq<BoardState>> {
        Seq::new(
            self.cols as nat,
            |x: int|
                Seq::new(self.rows as nat, |y: int| self.shown(Point { x: x as usize, y: y as usize })),
        )
    }

    pub open spec fn status(self) -> GameStatus {
        if self.is_lost() {
            GameStatus::Lost
        } else if self.is_won() {
            GameStatus::Won
        } else {
            GameStatus::InProgress
        }
    }

    /// The number of mines: the requested number until mines are
    /// generated, the number placed afterwards.
    pub open spec fn mine_count(self) -> nat {
        if self.mines_generated {
            self.mine_points.len()
        } else {
            self.mine_count_target as nat
        }
    }

    /// The game with `points` revealed as well.
    pub open spec fn with_moves(self, points: Set<Point>) -> GameModel {
        GameModel { moves: self.moves.union(points), ..self }
    }

    /// The game with a flag at `p`.
    pub open spec fn with_flag(self, p: Point) -> GameModel {
        GameModel { flag_points: self.flag_points.insert(p), ..self }
    }

    /// The game without a flag at `p`.
    pub open spec fn without_flag(self, p: Point) -> GameModel {
        GameModel { flag_points: self.flag_points.remove(p), ..self }
    }

    /// A new game with the given identity: a blank board, nothing
    /// revealed, flagged or mined.
    pub open spec fn fresh(
        id: i32,
        created_at: Timestamp,
        cols: usize,
        rows: usize,
        mines: usize,
    ) -> GameModel {
        GameModel {
            id,
            board: Seq::new(cols as nat, |x: int| Seq::new(rows as nat, |y: int| BoardState::Zero)),
            moves: Set::empty(),
            mine_points: Set::empty(),
            flag_points: Set::empty(),
            created_at,
            mines_generated: false,
            cols,
            rows,
            mine_count_target: mines,
        }
    }
}

/// Revealing cells of the board keeps a game well formed.
pub proof fn lemma_with_moves_wf(g: GameModel, points: Set<Point>)
    requires
        g.wf(),
        points.finite(),
        forall|p: Point| #[trigger] points.contains(p) ==> g.on_board(p),
    ensures
        g.with_moves(points).wf(),
{
}

impl View for MinesweeperGame {
    type V = GameModel;

    open spec fn view(&self) -> GameModel {
        GameModel {
            id: self.id,
            board: board_view(self.board),
            moves: self.moves@,
            mine_points: self.mine_points@,
            flag_points: self.flag_points@,
            created_at: self.created_at,
            mines_generated: self.mines_generated,
            cols: self.cols,
            rows: self.rows,
            mine_count_target: self.mine_count_target,
        }
    }
}

/// A copy of a board, cell for cell.
pub fn copy_board(board: &Vec<Vec<BoardState>>) -> (copy: Vec<Vec<BoardState>>)
    ensures
        board_view(copy) == board_view(*board),
{
    let mut copy: Vec<Vec<BoardState>> = Vec::new();
    let mut x: usize = 0;
    while x < board.len()
        invariant
            x <= board@.len(),
            copy@.len() == x,
            forall|i: int| 0 <= i < x ==> (#[trigger] copy@[i])@ == board@[i]@,
        decreases board@.len() - x,
    {
        let mut column: Vec<BoardState> = Vec::new();
        let mut y: usize = 0;
        while y < board[x].len()
            invariant
                x < board@.len(),
                y <= board@[x as int]@.len(),
                column@ == board@[x as int]@.subrange(0, y as int),
            decreases board@[x as int]@.len() - y,
        {
            column.push(board[x][y]);
            y += 1;
        }
        copy.push(column);
        x += 1;
    }
    copy
}

/// A board of `cols` columns and `rows` rows with `state` in every cell.
pub fn filled_board(cols: usize, rows: usize, state: BoardState) -> (board: Vec<Vec<BoardState>>)
    ensures
        board_view(board) == Seq::new(cols as nat, |x: int| Seq::new(rows as nat, |y: int| state)),
{
    let mut board: Vec<Vec<BoardState>> = Vec::new();
    let mut x: usize = 0;
    while x < cols
        invariant
            x <= cols,
            board@.len() == x,
            forall|i: int|
                0 <= i < x ==> (#[trigger] board@[i])@ == Seq::new(rows as nat, |y: int| state),
        decreases cols - x,
    {
        let mut column: Vec<BoardState> = Vec::new();
        let mut y: usize = 0;
        while y < rows
            invariant
                y <= rows,
                column@ == Seq::new(y as nat, |j: int| state),
            decreases rows - y,
        {
            column.push(state);
            y += 1;
        }
        board.push(column);
        x += 1;
    }
    assert(board_view(board) =~~= Seq::new(
        cols as nat,
        |x: int| Seq::new(rows as nat, |y: int| state),
    ));
    board
}

impl MinesweeperGame {
    /// The game's own invariant: that of its model, and no point held twice.
    pub open spec fn wf(&self) -> bool {
        &&& self@.wf()
        &&& self.moves.wf()
        &&& self.mine_points.wf()
        &&& self.flag_points.wf()
    }

    /// A new game with a random id from 1 up to, not including, `i32::MAX`,
    /// created now.
    pub fn new(cols: usize, rows: usize, mines: usize) -> (game: MinesweeperGame)
        requires
            cols * rows <= usize::MAX,
        ensures
            game.wf(),
            1 <= game.id < i32::MAX,
            game@ == GameModel::fresh(game.id, game.created_at, cols, rows, mines),
    {
        let id: i32 = 1 + random_below(0x7fff_fffe) as i32;
        MinesweeperGame::fresh(id, now(), cols, rows, mines)
    }

    /// A new game with the given id and time of creation.
    pub fn fresh(id: i32, created_at: Timestamp, cols: usize, rows: usize, mines: usize) -> (game:
        MinesweeperGame)
        requires
            cols * rows <= usize::MAX,
        ensures
            game.wf(),
            game@ == GameModel::fresh(id, created_at, cols, rows, mines),
    {
        MinesweeperGame {
            id,
            board: filled_board(cols, rows, BoardState::Zero),
            moves: PointSet::new(),
            mine_points: PointSet::new(),
            flag_points: PointSet::new(),
            created_at,
            mines_generated: false,
            cols,
            rows,
            mine_count_target: mines,
        }
    }

    pub fn mine_count(&self) -> (n: usize)
        requires
            self.mine_points.wf(),
        ensures
            n == self@.mine_count(),
    {
        if self.mines_generated {
            self.mine_points.len()
        } else {
            self.mine_count_target
        }
    }

    pub fn is_valid_point(&self, p: &Point) -> (b: bool)
        ensures
            b == self@.on_board(*p),
    {
        p.x < self.cols && p.y < self.rows
    }

    pub fn is_point_revealed(&self, p: &Point) -> (b: bool)
        ensures
            b == self@.moves.contains(*p),
    {
        self.moves.contains(p)
    }

    pub fn is_point_flagged(&self, p: &Point) -> (b: bool)
        ensures
            b == self@.flag_points.contains(*p),
    {
        self.flag_points.contains(p)
    }

    pub fn is_game_lost(&self) -> (b: bool)
        ensures
            b == self@.is_lost(),
    {
        if !self.mines_generated {
            return false;
        }
        let n = self.mine_points.len();
        let mut i: usize = 0;
        while i < n
            invariant
                i <= n,
                self.mines_generated,
                n == self.mine_points.elements().len(),
                forall|j: int| 0 <= j < i ==> !self.moves@.contains(self.mine_points.elements()[j]),
            decreases n - i,
        {
            let p = self.mine_points.get(i);
            if self.moves.contains(&p) {
                assert(self@.mine_points.contains(p) && self@.moves.contains(p));
                return true;
            }
            i += 1;
        }
        false
    }

    pub fn is_game_won(&self) -> (b: bool)
        requires
            self.wf(),
        ensures
            b == self@.is_won(),
    {
        if !self.mines_generated || self.is_game_lost() {
            return false;
        }
        proof {
            lemma_points_fit(self@.mine_points, self.cols, self.rows);
        }
        let total_cells = self.cols * self.rows;
        self.moves.len() == total_cells - self.mine_points.len()
    }

    pub fn is_game_over(&self) -> (b: bool)
        requires
            self.wf(),
        ensures
            b == self@.is_over(),
    {
        self.is_game_won() || self.is_game_lost()
    }

    /// Reveals `points`: adds them to the moves. Points that are
    /// revealed already stay as they are.
    pub fn add_moves(&mut self, points: &[Point])
        requires
            old(self).wf(),
            forall|k: int| 0 <= k < points@.len() ==> old(self)@.on_board(#[trigger] points@[k]),
        ensures
            final(self).wf(),
            final(self)@ == old(self)@.with_moves(points@.to_set()),
    {
        let ghost before = self@;
        let mut i: usize = 0;
        while i < points.len()
            invariant
                i <= points@.len(),
                before.wf(),
                forall|k: int| 0 <= k < points@.len() ==> before.on_board(#[trigger] points@[k]),
                self.moves.wf(),
                self.mine_points.wf(),
                self.flag_points.wf(),
                self@ == (GameModel { moves: self@.moves, ..before }),
                self@.moves == before.moves.union(points@.subrange(0, i as int).to_set()),
            decreases points@.len() - i,
        {
            let p = points[i];
            self.moves.insert(p);
            proof {
                let done = points@.subrange(0, i as int);
                let next = points@.subrange(0, i + 1);
                assert(next.to_set() =~= done.to_set().insert(p)) by {
                    assert forall|q: Point| done.contains(q) || q == p implies next.contains(q) by {
                        if q == p {
                            assert(next[i as int] == p);
                        }
                    }
                }
            }
            i += 1;
        }
        proof {
            assert(points@.subrange(0, points@.len() as int) =~= points@);
            lemma_with_moves_wf(before, points@.to_set());
        }
    }

    /// Puts a flag at `p`.
    pub fn add_flag(&mut self, p: Point)
        requires
            old(self).wf(),
            old(self)@.on_board(p),
        ensures
            final(self).wf(),
            final(self)@ == old(self)@.with_flag(p),
    {
        self.flag_points.insert(p);
    }

    /// Takes the flag at `p` away.
    pub fn remove_flag(&mut self, p: &Point)
        requires
            old(self).wf(),
        ensures
            final(self).wf(),
            final(self)@ == old(self)@.without_flag(*p),
    {
        self.flag_points.remove(p);
    }

    /// The status, derived from what is revealed.
    pub fn status(&self) -> (s: GameStatus)
        requires
            self.wf(),
        ensures
            s == self@.status(),
    {
        if self.is_game_lost() {
            GameStatus::Lost
        } else if self.is_game_won() {
            GameStatus::Won
        } else {
            GameStatus::InProgress
        }
    }
}

impl Clone for MinesweeperGame {
    fn clone(&self) -> (game: MinesweeperGame)
        ensures
            game@ == self@,
            game.wf() == self.wf(),
    {
        MinesweeperGame {
            id: self.id,
            board: copy_board(&self.board),
            moves: self.moves.clone(),
            mine_points: self.mine_points.clone(),
            flag_points: self.flag_points.clone(),
            created_at: self.created_at,
            mines_generated: self.mines_generated,
            cols: self.cols,
            rows: self.rows,
            mine_count_target: self.mine_count_target,
        }
    }
}

} // verus!
