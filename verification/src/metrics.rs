//! What the service reports about itself: how many games were started,
//! how many moves were made and how many games were won and lost.

use crate::game::GameModel;
use crate::game::MinesweeperGame;
use vstd::prelude::*;

verus! {

/// The counters of the service, or what one event adds to them.
#[derive(Clone, Copy, Debug, PartialEq, Eq, Structural)]
pub struct Counters {
    pub games_started: u64,
    pub moves_made: u64,
    pub games_won: u64,
    pub games_lost: u64,
}

/// The sum of two counts; a counter that is full stays full.
pub open spec fn capped_sum(a: u64, b: u64) -> u64 {
    if a + b > u64::MAX {
        u64::MAX
    } else {
        (a + b) as u64
    }
}

/// What a started game adds: one game.
pub open spec fn started_steps() -> Counters {
    Counters { games_started: 1, moves_made: 0, games_won: 0, games_lost: 0 }
}

/// What a move adds that took effect and left the game `g`: one move,
/// and one game won or lost if that is what the move did.
pub open spec fn move_steps(g: GameModel) -> Counters {
    Counters {
        games_started: 0,
        moves_made: 1,
        games_won: if g.is_won() {
            1
        } else {
            0
        },
        games_lost: if g.is_lost() {
            1
        } else {
            0
        },
    }
}

impl Counters {
    /// The counters after `steps` are added, counter by counter.
    pub open spec fn spec_plus(self, steps: Counters) -> Counters {
        Counters {
            games_started: capped_sum(self.games_started, steps.games_started),
            moves_made: capped_sum(self.moves_made, steps.moves_made),
            games_won: capped_sum(self.games_won, steps.games_won),
            games_lost: capped_sum(self.games_lost, steps.games_lost),
        }
    }

    /// Counters that have counted nothing.
    pub open spec fn spec_zero() -> Counters {
        Counters { games_started: 0, moves_made: 0, games_won: 0, games_lost: 0 }
    }

    #[verifier::when_used_as_spec(spec_zero)]
    pub fn zero() -> (counters: Counters)
        ensures
            counters == Counters::spec_zero(),
    {
        Counters { games_started: 0, moves_made: 0, games_won: 0, games_lost: 0 }
    }

    #[verifier::when_used_as_spec(spec_plus)]
    pub fn plus(self, steps: Counters) -> (sum: Counters)
        ensures
            sum == self.spec_plus(steps),
    {
        Counters {
            games_started: self.games_started.saturating_add(steps.games_started),
            moves_made: self.moves_made.saturating_add(steps.moves_made),
            games_won: self.games_won.saturating_add(steps.games_won),
            games_lost: self.games_lost.saturating_add(steps.games_lost),
        }
    }
}

/// A game was started.
pub fn game_started() -> (steps: Counters)
    ensures
        steps == started_steps(),
{
    Counters { games_started: 1, moves_made: 0, games_won: 0, games_lost: 0 }
}

/// A move took effect and left `game`.
pub fn move_made(game: &MinesweeperGame) -> (steps: Counters)
    requires
        game.wf(),
    ensures
        steps == move_steps(game@),
{
    let won = game.is_game_won();
    let lost = !won && game.is_game_lost();
    Counters {
        games_started: 0,
        moves_made: 1,
        games_won: if won {
            1
        } else {
            0
        },
        games_lost: if lost {
            1
        } else {
            0
        },
    }
}

} // verus!
