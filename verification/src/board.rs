//! Cells and coordinates of a Minesweeper board.

use vstd::prelude::*;

verus! {

/// A cell position: column `x`, row `y`.
#[derive(Clone, Copy, Debug, PartialEq, Eq, Hash, Structural)]
pub struct Point {
    pub x: usize,
    pub y: usize,
}

/// What a cell shows. Each state has a fixed integer code, given by
/// [`BoardState::code`]: `Flag` is -3, `Mine` is -2, `Unknown` is -1 and the
/// numbered states carry their own number.
#[derive(Clone, Copy, Debug, PartialEq, Eq, Hash, Structural)]
pub enum BoardState {
    Flag,
    Mine,
    Unknown,
    Zero,
    One,
    Two,
    Three,
    Four,
    Five,
    Six,
    Seven,
    Eight,
}

/// The numbered state that stands for `n` adjacent mines; every count
/// above eight is shown as `Eight`.
pub open spec fn count_state(n: int) -> BoardState {
    if n <= 0 {
        BoardState::Zero
    } else if n == 1 {
        BoardState::One
    } else if n == 2 {
        BoardState::Two
    } else if n == 3 {
        BoardState::Three
    } else if n == 4 {
        BoardState::Four
    } else if n == 5 {
        BoardState::Five
    } else if n == 6 {
        BoardState::Six
    } else if n == 7 {
        BoardState::Seven
    } else {
        BoardState::Eight
    }
}

/// A board as a sequence of columns, each a sequence of cells.
pub open spec fn board_view(board: Vec<Vec<BoardState>>) -> Seq<Seq<BoardState>> {
    Seq::new(board@.len(), |i: int| board@[i]@)
}

/// The board has `cols` columns of `rows` cells.
pub open spec fn shaped(board: Seq<Seq<BoardState>>, cols: usize, rows: usize) -> bool {
    &&& board.len() == cols
    &&& forall|x: int| 0 <= x < cols ==> (#[trigger] board[x]).len() == rows
}

/// The cell of `board` at `p`.
pub open spec fn cell_at(board: Seq<Seq<BoardState>>, p: Point) -> BoardState {
    board[p.x as int][p.y as int]
}

/// Every cell of the board is `Zero`.
pub open spec fn blank(board: Seq<Seq<BoardState>>, cols: usize, rows: usize) -> bool {
    forall|p: Point| p.x < cols && p.y < rows ==> #[trigger] cell_at(board, p) == BoardState::Zero
}

/// Reads the cell at `p`.
pub fn get_cell(board: &Vec<Vec<BoardState>>, p: Point) -> (state: BoardState)
    requires
        p.x < board@.len(),
        p.y < board@[p.x as int]@.len(),
    ensures
        state == cell_at(board_view(*board), p),
{
    board[p.x][p.y]
}

/// Writes `state` to the cell at `p` and leaves every other cell as it was.
pub fn set_cell(
    board: &mut Vec<Vec<BoardState>>,
    cols: usize,
    rows: usize,
    p: Point,
    state: BoardState,
)
    requires
        shaped(board_view(*old(board)), cols, rows),
        p.x < cols,
        p.y < rows,
    ensures
        shaped(board_view(*final(board)), cols, rows),
        forall|q: Point|
            q.x < cols && q.y < rows ==> #[trigger] cell_at(board_view(*final(board)), q) == if q
                == p {
                state
            } else {
                cell_at(board_view(*old(board)), q)
            },
{
    assert(board_view(*board)[p.x as int].len() == rows);
    board[p.x][p.y] = state;
    proof {
        let before = board_view(*old(board));
        let after = board_view(*board);
        assert forall|x: int| 0 <= x < cols implies (#[trigger] after[x]).len() == rows by {
            assert(before[x].len() == rows);
        }
    }
}

impl BoardState {
    /// The integer code of a state.
    pub open spec fn spec_code(&self) -> int {
        match *self {
            BoardState::Flag => -3,
            BoardState::Mine => -2,
            BoardState::Unknown => -1,
            BoardState::Zero => 0,
            BoardState::One => 1,
            BoardState::Two => 2,
            BoardState::Three => 3,
            BoardState::Four => 4,
            BoardState::Five => 5,
            BoardState::Six => 6,
            BoardState::Seven => 7,
            BoardState::Eight => 8,
        }
    }

    /// The state after one more adjacent mine: the next number for `Zero`
    /// to `Seven`, the state itself for every other state.
    pub open spec fn spec_increment(&self) -> BoardState {
        if 0 <= self.spec_code() < 8 {
            count_state(self.spec_code() + 1)
        } else {
            *self
        }
    }

    /// The state with the given code, if there is one.
    pub open spec fn spec_from_code(code: int) -> Option<BoardState> {
        if code == -3 {
            Some(BoardState::Flag)
        } else if code == -2 {
            Some(BoardState::Mine)
        } else if code == -1 {
            Some(BoardState::Unknown)
        } else if 0 <= code <= 8 {
            Some(count_state(code))
        } else {
            None
        }
    }

    #[verifier::when_used_as_spec(spec_increment)]
    pub fn increment(&self) -> (next: BoardState)
        ensures
            next == self.spec_increment(),
    {
        match *self {
            BoardState::Zero => BoardState::One,
            BoardState::One => BoardState::Two,
            BoardState::Two => BoardState::Three,
            BoardState::Three => BoardState::Four,
            BoardState::Four => BoardState::Five,
            BoardState::Five => BoardState::Six,
            BoardState::Six => BoardState::Seven,
            BoardState::Seven => BoardState::Eight,
            _ => *self,
        }
    }

    pub fn code(&self) -> (c: i8)
        ensures
            c == self.spec_code(),
    {
        match *self {
            BoardState::Flag => -3,
            BoardState::Mine => -2,
            BoardState::Unknown => -1,
            BoardState::Zero => 0,
            BoardState::One => 1,
            BoardState::Two => 2,
            BoardState::Three => 3,
            BoardState::Four => 4,
            BoardState::Five => 5,
            BoardState::Six => 6,
            BoardState::Seven => 7,
            BoardState::Eight => 8,
        }
    }

    pub fn from_code(code: i8) -> (state: Option<BoardState>)
        ensures
            state == BoardState::spec_from_code(code as int),
    {
        match code {
            -3 => Some(BoardState::Flag),
            -2 => Some(BoardState::Mine),
            -1 => Some(BoardState::Unknown),
            0 => Some(BoardState::Zero),
            1 => Some(BoardState::One),
            2 => Some(BoardState::Two),
            3 => Some(BoardState::Three),
            4 => Some(BoardState::Four),
            5 => Some(BoardState::Five),
            6 => Some(BoardState::Six),
            7 => Some(BoardState::Seven),
            8 => Some(BoardState::Eight),
            _ => None,
        }
    }
}

/// Counting one more mine on a cell that shows `n` mines shows `n + 1`.
pub proof fn lemma_increment_counts(n: int)
    requires
        0 <= n,
    ensures
        count_state(n).spec_increment() == count_state(n + 1),
{
}

} // verus!
