//! The open area around a cell: what a click on a `Zero` cell reveals.

use crate::board::BoardState;
use crate::board::Point;
use crate::game::GameModel;
use crate::grid::adjacent;
use crate::grid::in_bounds;
use crate::grid::neighbor_at;
use crate::grid::place_of;
use crate::points::PointSet;
use std::collections::VecDeque;
use vstd::prelude::*;

verus! {

/// The reveal may pass from `c` to `m`: `c` is a `Zero` cell of the board
/// and `m` a cell of the board that touches it.
pub open spec fn spreads(g: GameModel, c: Point, m: Point) -> bool {
    &&& g.on_board(c)
    &&& g.cell(c) == BoardState::Zero
    &&& g.on_board(m)
    &&& adjacent(c, m)
}

/// `q` is reached from `start` in at most `n` steps of `spreads`.
pub open spec fn reach_within(g: GameModel, start: Point, q: Point, n: nat) -> bool
    decreases n,
{
    if n == 0 {
        q == start
    } else {
        reach_within(g, start, q, (n - 1) as nat) || exists|c: Point|
            reach_within(g, start, c, (n - 1) as nat) && #[trigger] spreads(g, c, q)
    }
}

/// `q` is reached from `start` through `Zero` cells.
pub open spec fn reachable(g: GameModel, start: Point, q: Point) -> bool {
    exists|n: nat| #[trigger] reach_within(g, start, q, n)
}

/// The open area of `start`: `start` itself and every cell reached from it
/// through `Zero` cells. Numbered cells on its rim belong to it; nothing
/// lies behind them.
pub open spec fn flood_region(g: GameModel, start: Point) -> Set<Point> {
    Set::new(|q: Point| reachable(g, start, q))
}

pub proof fn lemma_reach_start(g: GameModel, start: Point)
    ensures
        reachable(g, start, start),
{
    assert(reach_within(g, start, start, 0));
}

pub proof fn lemma_reach_step(g: GameModel, start: Point, c: Point, m: Point)
    requires
        reachable(g, start, c),
        spreads(g, c, m),
    ensures
        reachable(g, start, m),
{
    let n = choose|n: nat| #[trigger] reach_within(g, start, c, n);
    assert(reach_within(g, start, m, n + 1));
}

/// A set that holds `start` and is closed under `spreads` holds whatever
/// is reached from `start`.
pub proof fn lemma_closed_holds_reached(g: GameModel, start: Point, s: Set<Point>, q: Point, n: nat)
    requires
        s.contains(start),
        forall|c: Point, m: Point| s.contains(c) && #[trigger] spreads(g, c, m) ==> s.contains(m),
        reach_within(g, start, q, n),
    ensures
        s.contains(q),
    decreases n,
{
    if n > 0 {
        if reach_within(g, start, q, (n - 1) as nat) {
            lemma_closed_holds_reached(g, start, s, q, (n - 1) as nat);
        } else {
            let c = choose|c: Point|
                reach_within(g, start, c, (n - 1) as nat) && #[trigger] spreads(g, c, q);
            lemma_closed_holds_reached(g, start, s, c, (n - 1) as nat);
        }
    }
}

/// What is reached from a cell of the board lies on the board.
pub proof fn lemma_reached_on_board(g: GameModel, start: Point, q: Point)
    requires
        g.on_board(start),
        reachable(g, start, q),
    ensures
        g.on_board(q),
{
    let n = choose|n: nat| #[trigger] reach_within(g, start, q, n);
    lemma_reach_within_on_board(g, start, q, n);
}

proof fn lemma_reach_within_on_board(g: GameModel, start: Point, q: Point, n: nat)
    requires
        g.on_board(start),
        reach_within(g, start, q, n),
    ensures
        g.on_board(q),
    decreases n,
{
    if n > 0 && reach_within(g, start, q, (n - 1) as nat) {
        lemma_reach_within_on_board(g, start, q, (n - 1) as nat);
    }
}

/// Marks as visited, and queues, each cell of the grid that touches `p`
/// and was not visited before, in the order of their places around `p`.
pub fn visit_neighbors(
    p: Point,
    cols: usize,
    rows: usize,
    visited: &mut PointSet,
    queue: &mut VecDeque<Point>,
)
    requires
        old(visited).wf(),
    ensures
        final(visited).wf(),
        exists|added: Seq<Point>|
            final(visited).elements() == #[trigger] (old(visited).elements() + added)
                && final(queue)@ == old(queue)@ + added,
        forall|m: Point| in_bounds(cols, rows, m) && adjacent(p, m) ==> final(visited)@.contains(m),
        forall|q: Point| #[trigger]
            final(visited)@.contains(q) ==> old(visited)@.contains(q) || (in_bounds(cols, rows, q)
                && adjacent(p, q)),
{
    let ghost mut added: Seq<Point> = Seq::empty();
    let mut k: usize = 0;
    while k < 9
        invariant
            k <= 9,
            visited.wf(),
            visited.elements() == old(visited).elements() + added,
            queue@ == old(queue)@ + added,
            forall|m: Point|
                in_bounds(cols, rows, m) && adjacent(p, m) && place_of(p, m) < k
                    ==> #[trigger] visited@.contains(m),
            forall|q: Point| #[trigger]
                visited@.contains(q) ==> old(visited)@.contains(q) || (in_bounds(cols, rows, q)
                    && adjacent(p, q)),
        decreases 9 - k,
    {
        if k != 4 {
            match neighbor_at(p, k, cols, rows) {
                Some(m) => {
                    if visited.insert(m) {
                        queue.push_back(m);
                        proof {
                            added = added.push(m);
                        }
                    }
                },
                None => {},
            }
        }
        k += 1;
    }
}

} // verus!
