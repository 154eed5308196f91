//! What holds of every game: laws that relate the model, the engine and
//! the service to each other.

use crate::board::cell_at;
use crate::board::count_state;
use crate::board::BoardState;
use crate::board::Point;
use crate::engine::generated_from;
use crate::engine::reveal_set;
use crate::flood::lemma_reach_step;
use crate::flood::lemma_reached_on_board;
use crate::flood::reach_within;
use crate::flood::reachable;
use crate::flood::spreads;
use crate::flood::lemma_reach_start;
use crate::game::GameModel;
use crate::game::GameStatus;
use crate::grid::adjacent;
use crate::grid::adjacent_mines;
use crate::grid::safe_zone;
use crate::grid::within_one;
use crate::grid::lemma_at_most_eight;
use crate::repository::entry_from;
use crate::repository::holder_from;
use crate::repository::lemma_entry_is_first;
use crate::repository::owner_of;
use crate::repository::with_mapping;
use crate::repository::UserIndex;
use crate::service::flag_is_void;
use crate::service::moved;
use crate::service::toggled;
use vstd::prelude::*;

verus! {

/// After generation a cell without a mine shows exactly the number of
/// mines that touch it, a number from 0 to 8.
pub proof fn lemma_cells_count_mines(g: GameModel, p: Point)
    requires
        g.wf(),
        g.mines_generated,
        g.on_board(p),
        !g.mine_points.contains(p),
    ensures
        g.cell(p).spec_code() == adjacent_mines(g.mine_points, p).len(),
        0 <= g.cell(p).spec_code() <= 8,
{
    lemma_at_most_eight(g.mine_points, p);
    assert(cell_at(g.board, p) == count_state(
        adjacent_mines(g.mine_points, p).len() as int,
    ));
}

/// After generation the mines are exactly the cells that hold `Mine`.
pub proof fn lemma_mine_cells(g: GameModel, p: Point)
    requires
        g.wf(),
        g.mines_generated,
        g.on_board(p),
    ensures
        g.mine_points.contains(p) <==> g.cell(p) == BoardState::Mine,
{
    assert(cell_at(g.board, p) == if g.mine_points.contains(p) {
        BoardState::Mine
    } else {
        count_state(adjacent_mines(g.mine_points, p).len() as int)
    });
}

/// A click always reveals the clicked cell.
pub proof fn lemma_click_is_revealed(g: GameModel, p: Point)
    requires
        g.wf(),
        g.on_board(p),
    ensures
        reveal_set(g, p).contains(p),
{
    if g.mines_generated {
        lemma_mine_cells(g, p);
        lemma_reach_start(g, p);
    }
}

/// Flagging a cell that is not revealed and flagging it again gives the
/// game back as it was. A cell that had no flag shows `Flag` in between
/// and `Unknown` again afterwards. Whether a flag takes effect is the
/// same before and after.
pub proof fn lemma_flag_twice(g: GameModel, p: Point)
    requires
        !g.moves.contains(p),
    ensures
        toggled(toggled(g, p), p) == g,
        flag_is_void(toggled(g, p), p) == flag_is_void(g, p),
        !g.flag_points.contains(p) ==> toggled(g, p).shown(p) == BoardState::Flag && toggled(
            toggled(g, p),
            p,
        ).shown(p) == BoardState::Unknown,
{
    let once = toggled(g, p);
    let twice = toggled(once, p);
    assert(twice.flag_points =~= g.flag_points);
}

/// The status follows from what is revealed: a game is lost exactly when
/// a mine is revealed, and, once its mines are generated, won exactly
/// when it is not lost and as many cells are revealed as hold no mine.
pub proof fn lemma_status_derivation(g: GameModel)
    requires
        g.wf(),
    ensures
        g.status() == GameStatus::Lost <==> g.moves.intersect(g.mine_points) != Set::<
            Point,
        >::empty(),
        g.mines_generated ==> (g.status() == GameStatus::Won <==> g.status() != GameStatus::Lost
            && g.moves.len() == g.cols * g.rows - g.mine_count()),
        g.status() == GameStatus::InProgress <==> !g.is_over(),
{
    let both = g.moves.intersect(g.mine_points);
    if g.is_lost() {
        let p = choose|p: Point| g.mine_points.contains(p) && g.moves.contains(p);
        assert(both.contains(p));
    } else {
        assert(both =~= Set::<Point>::empty());
    }
}


/// Codes identify states: decoding the code of a state gives the state back.
pub proof fn lemma_code_round_trip(state: BoardState)
    ensures
        BoardState::spec_from_code(state.spec_code()) == Some(state),
{
}

/// What a click on a `Zero` cell reveals is closed: every `Zero` cell that
/// is revealed has all its neighbours on the board revealed with it.
pub proof fn lemma_flood_closure(g: GameModel, p: Point, c: Point, m: Point)
    requires
        g.mines_generated,
        g.on_board(p),
        g.cell(p) == BoardState::Zero,
        reveal_set(g, p).contains(c),
        g.cell(c) == BoardState::Zero,
        g.on_board(m),
        adjacent(c, m),
    ensures
        reveal_set(g, p).contains(m),
{
    lemma_reached_on_board(g, p, c);
    lemma_reach_step(g, p, c, m);
}

/// A click on a mine reveals the mines and nothing else.
pub proof fn lemma_mine_reveal(g: GameModel, p: Point)
    requires
        g.wf(),
        g.mines_generated,
        g.on_board(p),
        g.mine_points.contains(p),
    ensures
        reveal_set(g, p) == g.mine_points,
{
}

/// The first click never lands beside a mine: after generation its
/// cell is `Zero`, so the click opens an area.
pub proof fn lemma_first_click_is_zero(after: GameModel, before: GameModel, first_click: Point)
    requires
        generated_from(after, before, first_click),
        before.on_board(first_click),
    ensures
        forall|q: Point|
            before.on_board(q) && within_one(first_click, q) ==> !#[trigger] after.mine_points.contains(
                q,
            ),
        after.cell(first_click) == BoardState::Zero,
{
    assert(adjacent_mines(after.mine_points, first_click) =~= Set::<Point>::empty()) by {
    }
    assert(cell_at(after.board, first_click) == count_state(
        adjacent_mines(after.mine_points, first_click).len() as int,
    ));
}

/// No flag lies on a revealed cell.
pub open spec fn flags_hidden(g: GameModel) -> bool {
    g.moves.disjoint(g.flag_points)
}

/// A flag toggle that takes effect keeps the flags off the revealed cells.
pub proof fn lemma_toggle_keeps_flags_hidden(g: GameModel, p: Point)
    requires
        flags_hidden(g),
        !flag_is_void(g, p),
    ensures
        flags_hidden(toggled(g, p)),
{
}

/// A move keeps the flags off the revealed cells if it reveals no
/// flagged cell. (A move that opens an area may reveal flagged cells of
/// the area; they then show their true state.)
pub proof fn lemma_move_keeps_flags_hidden(before: GameModel, after: GameModel, p: Point)
    requires
        flags_hidden(before),
        moved(before, after, p),
        after.moves.difference(before.moves).disjoint(before.flag_points),
    ensures
        flags_hidden(after),
{
}

/// Revealing is a union: revealing two sets of cells one after the other
/// reveals their union, in either order, and revealing the same cells
/// again changes nothing.
pub proof fn lemma_moves_are_a_union(g: GameModel, a: Set<Point>, b: Set<Point>)
    ensures
        g.with_moves(a).with_moves(b) == g.with_moves(a.union(b)),
        g.with_moves(a).with_moves(b) == g.with_moves(b).with_moves(a),
        g.with_moves(a).with_moves(a) == g.with_moves(a),
{
    assert(g.moves.union(a).union(b) =~= g.moves.union(a.union(b)));
    assert(g.moves.union(a).union(b) =~= g.moves.union(b).union(a));
    assert(g.moves.union(a).union(a) =~= g.moves.union(a));
}

/// Putting and taking flags is idempotent, and edits of different cells
/// do not depend on their order.
pub proof fn lemma_flag_edits(g: GameModel, p: Point, q: Point)
    ensures
        g.with_flag(p).with_flag(p) == g.with_flag(p),
        g.without_flag(p).without_flag(p) == g.without_flag(p),
        g.with_flag(p).with_flag(q) == g.with_flag(q).with_flag(p),
        g.without_flag(p).without_flag(q) == g.without_flag(q).without_flag(p),
        p != q ==> g.with_flag(p).without_flag(q) == g.without_flag(q).with_flag(p),
{
    assert(g.flag_points.insert(p).insert(p) =~= g.flag_points.insert(p));
    assert(g.flag_points.remove(p).remove(p) =~= g.flag_points.remove(p));
    assert(g.flag_points.insert(p).insert(q) =~= g.flag_points.insert(q).insert(p));
    assert(g.flag_points.remove(p).remove(q) =~= g.flag_points.remove(q).remove(p));
    if p != q {
        assert(g.flag_points.insert(p).remove(q) =~= g.flag_points.remove(q).insert(p));
    }
}

/// Reveals and flag edits do not depend on their order.
pub proof fn lemma_moves_and_flags_commute(g: GameModel, a: Set<Point>, p: Point)
    ensures
        g.with_moves(a).with_flag(p) == g.with_flag(p).with_moves(a),
        g.with_moves(a).without_flag(p) == g.without_flag(p).with_moves(a),
{
}


/// The open area of a cell without a mine holds no mine: the reveal
/// spreads from `Zero` cells only, and no mine touches a `Zero` cell.
pub proof fn lemma_flood_is_safe(g: GameModel, start: Point, q: Point)
    requires
        g.wf(),
        g.mines_generated,
        g.on_board(start),
        !g.mine_points.contains(start),
        reachable(g, start, q),
    ensures
        !g.mine_points.contains(q),
{
    let n = choose|n: nat| #[trigger] reach_within(g, start, q, n);
    lemma_reach_within_is_safe(g, start, q, n);
}

proof fn lemma_reach_within_is_safe(g: GameModel, start: Point, q: Point, n: nat)
    requires
        g.wf(),
        g.mines_generated,
        g.on_board(start),
        !g.mine_points.contains(start),
        reach_within(g, start, q, n),
    ensures
        !g.mine_points.contains(q),
    decreases n,
{
    if n > 0 {
        if reach_within(g, start, q, (n - 1) as nat) {
            lemma_reach_within_is_safe(g, start, q, (n - 1) as nat);
        } else {
            let c = choose|c: Point|
                reach_within(g, start, c, (n - 1) as nat) && #[trigger] spreads(g, c, q);
            lemma_mine_cells(g, c);
            if g.mine_points.contains(q) {
                let around = adjacent_mines(g.mine_points, c);
                g.mine_points.lemma_len_filter(|m: Point| adjacent(m, c));
                assert(around.contains(q));
                assert(around.len() > 0) by {
                    if around.len() == 0 {
                        around.lemma_len0_is_empty();
                    }
                }
            }
        }
    }
}

/// A click on a cell without a mine reveals no mine.
pub proof fn lemma_safe_click_reveals_no_mine(g: GameModel, p: Point)
    requires
        g.wf(),
        g.on_board(p),
        g.mines_generated,
        !g.mine_points.contains(p),
    ensures
        reveal_set(g, p).disjoint(g.mine_points),
{
    lemma_mine_cells(g, p);
    assert forall|q: Point| reveal_set(g, p).contains(q) implies !g.mine_points.contains(q) by {
        if g.cell(p) == BoardState::Zero {
            lemma_flood_is_safe(g, p, q);
        }
    }
}

/// A move that takes effect on a game that is not lost loses it exactly
/// when the clicked cell holds a mine. The first move, which generates
/// the mines, never does.
pub proof fn lemma_move_loses_on_a_mine_only(before: GameModel, after: GameModel, p: Point)
    requires
        before.wf(),
        before.on_board(p),
        !before.is_lost(),
        !before.mines_generated ==> before.moves == Set::<Point>::empty(),
        moved(before, after, p),
    ensures
        after.is_lost() <==> before.mines_generated && before.mine_points.contains(p),
{
    let prepared = GameModel { moves: before.moves, ..after };
    if !before.mines_generated {
        lemma_first_click_is_zero(prepared, before, p);
    }
    if prepared.mine_points.contains(p) {
        lemma_click_is_revealed(prepared, p);
    } else {
        lemma_safe_click_reveals_no_mine(prepared, p);
        assert forall|q: Point| !(after.mine_points.contains(q) && after.moves.contains(q)) by {
            if after.moves.contains(q) && !before.moves.contains(q) {
                assert(reveal_set(prepared, p).contains(q));
            }
        }
    }
}

/// The place of the entry of `user` after a mapping is recorded for them.
pub open spec fn place_after_mapping(index: UserIndex, user: Seq<char>) -> int {
    match entry_from(index, user, 0) {
        Some(i) => i,
        None => index.len() as int,
    }
}

/// Recording a user for a game makes the user its owner if it had none,
/// and leaves the owner of every other game.
pub proof fn lemma_owner_after_mapping(index: UserIndex, user: Seq<char>, game_id: i32, other: i32)
    ensures
        owner_of(index, game_id).is_none() ==> owner_of(with_mapping(index, user, game_id), game_id)
            == Some(user),
        other != game_id ==> owner_of(with_mapping(index, user, game_id), other) == owner_of(
            index,
            other,
        ),
{
    if other != game_id {
        lemma_other_holder_kept(index, user, game_id, other, 0);
        match holder_from(index, other, 0) {
            Some(i) => {
                lemma_holder_found(index, other, 0, i);
                lemma_entry_kept(index, user, game_id, i);
            },
            None => {},
        }
    }
    if owner_of(index, game_id).is_none() {
        lemma_holder_absent(index, game_id, 0);
        lemma_place_after_mapping(index, user, game_id);
        lemma_new_holder(index, user, game_id, 0);
    }
}

/// What `holder_from` finds at `i` is an entry from `from` on that holds
/// the game.
proof fn lemma_holder_found(index: UserIndex, game_id: i32, from: int, i: int)
    requires
        holder_from(index, game_id, from) == Some(i),
    ensures
        from <= i < index.len(),
        index[i].1.contains(game_id),
    decreases index.len() - from,
{
    if 0 <= from < index.len() && !index[from].1.contains(game_id) {
        lemma_holder_found(index, game_id, from + 1, i);
    }
}

/// Where `holder_from` finds nothing, no entry from there on holds the game.
proof fn lemma_holder_absent(index: UserIndex, game_id: i32, from: int)
    requires
        0 <= from,
        holder_from(index, game_id, from).is_none(),
    ensures
        forall|j: int| from <= j < index.len() ==> !(#[trigger] index[j]).1.contains(game_id),
    decreases index.len() - from,
{
    if from < index.len() {
        lemma_holder_absent(index, game_id, from + 1);
    }
}

/// A mapping keeps the user of every entry, and the place of the user's
/// own entry is on the new index.
proof fn lemma_place_after_mapping(index: UserIndex, user: Seq<char>, game_id: i32)
    ensures
        ({
            let after = with_mapping(index, user, game_id);
            let place = place_after_mapping(index, user);
            &&& 0 <= place < after.len()
            &&& after[place].0 == user
            &&& after[place].1.contains(game_id)
            &&& index.len() <= after.len() <= index.len() + 1
        }),
{
    match entry_from(index, user, 0) {
        Some(i) => {
            lemma_entry_is_first(index, user, i);
            let ids = index[i].1;
            if !ids.contains(game_id) {
                assert(ids.push(game_id)[ids.len() as int] == game_id);
            }
        },
        None => {
            assert(seq![game_id][0] == game_id);
        },
    }
}

/// A mapping keeps the user of every entry that was there.
proof fn lemma_entry_kept(index: UserIndex, user: Seq<char>, game_id: i32, i: int)
    requires
        0 <= i < index.len(),
    ensures
        i < with_mapping(index, user, game_id).len(),
        with_mapping(index, user, game_id)[i].0 == index[i].0,
{
    match entry_from(index, user, 0) {
        Some(k) => {
            lemma_entry_is_first(index, user, k);
        },
        None => {},
    }
}

/// A mapping of `game_id` does not change who holds another game.
proof fn lemma_other_holder_kept(
    index: UserIndex,
    user: Seq<char>,
    game_id: i32,
    other: i32,
    from: int,
)
    requires
        0 <= from,
        other != game_id,
    ensures
        holder_from(with_mapping(index, user, game_id), other, from) == holder_from(
            index,
            other,
            from,
        ),
    decreases index.len() + 1 - from,
{
    let after = with_mapping(index, user, game_id);
    lemma_place_after_mapping(index, user, game_id);
    if from < after.len() {
        lemma_other_holder_kept(index, user, game_id, other, from + 1);
        match entry_from(index, user, 0) {
            Some(i) => {
                lemma_entry_is_first(index, user, i);
                let ids = index[i].1;
                if from == i && !ids.contains(game_id) {
                    let grown = ids.push(game_id);
                    if ids.contains(other) {
                        let k = choose|k: int| 0 <= k < ids.len() && ids[k] == other;
                        assert(grown[k] == other);
                    }
                }
            },
            None => {
                if from == index.len() {
                    assert(after[from].1 =~= seq![game_id]);
                } else {
                    assert(after[from] == index[from]);
                }
            },
        }
    }
}

/// Where nobody held `game_id`, the search on the index after the mapping
/// ends at the entry of `user`.
proof fn lemma_new_holder(index: UserIndex, user: Seq<char>, game_id: i32, from: int)
    requires
        0 <= from <= place_after_mapping(index, user),
        forall|j: int| 0 <= j < index.len() ==> !(#[trigger] index[j]).1.contains(game_id),
    ensures
        holder_from(with_mapping(index, user, game_id), game_id, from) == Some(
            place_after_mapping(index, user),
        ),
    decreases place_after_mapping(index, user) - from,
{
    let place = place_after_mapping(index, user);
    lemma_place_after_mapping(index, user, game_id);
    if from < place {
        lemma_new_holder(index, user, game_id, from + 1);
        match entry_from(index, user, 0) {
            Some(i) => {
                lemma_entry_is_first(index, user, i);
            },
            None => {
            },
        }
    }
}

} // verus!
