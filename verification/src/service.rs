//! The game service: who may play a game, what a move and a flag do to
//! it, and how a user's games are tallied.

use crate::board::BoardState;
use crate::board::Point;
use crate::engine::generated_from;
use crate::engine::BoardEngine;
use crate::engine::reveal_set;
use crate::error::AppError;
use crate::error::AppResult;
use crate::flood::lemma_reached_on_board;
use crate::game::GameModel;
use crate::game::GameStatus;
use crate::game::MinesweeperGame;
use crate::metrics::game_started;
use crate::metrics::move_made;
use crate::metrics::move_steps;
use crate::metrics::started_steps;
use crate::metrics::Counters;
use crate::repository::found_games;
use crate::repository::game_views;
use crate::repository::ids_of;
use crate::repository::owner_of;
use crate::repository::with_mapping;
use crate::repository::MinesweeperRepository;
use crate::repository::UserIndex;
use crate::user::UserInfo;
use crate::user::UserStatsDto;
use vstd::prelude::*;
use vstd::string::to_string_from_display_ensures;

verus! {

/// The identifier of the caller, if there is a caller.
pub open spec fn caller_of(user: Option<UserInfo>) -> Option<Seq<char>> {
    match user {
        Some(info) => Some(info.sub@),
        None => None,
    }
}

/// The text of an optional string.
pub open spec fn text_of(text: Option<String>) -> Option<Seq<char>> {
    match text {
        Some(t) => Some(t@),
        None => None,
    }
}

/// The ownership policy: a game without a recorded owner is open to
/// everyone; a game with an owner is open to that owner alone.
pub open spec fn allowed(owner: Option<Seq<char>>, caller: Option<Seq<char>>) -> bool {
    match owner {
        None => true,
        Some(o) => caller == Some(o),
    }
}

/// Why a move or a flag is refused before it touches the game.
pub enum Refusal {
    /// The game has an owner and the caller is someone else, or nobody.
    Unauthorized,
    /// The game id is 0.
    GameIdRequired,
    /// No game is stored under the id.
    NotFound,
    /// The point is not on the board.
    OutOfBounds,
}

/// Whether, and why, a request on cell `point` of game `id` by `caller`
/// is refused. Ownership is checked first, then the id, then that the
/// game exists, then the point.
pub open spec fn refusal(
    games: Map<i32, GameModel>,
    index: UserIndex,
    id: i32,
    point: Point,
    caller: Option<Seq<char>>,
) -> Option<Refusal> {
    if !allowed(owner_of(index, id), caller) {
        Some(Refusal::Unauthorized)
    } else if id == 0 {
        Some(Refusal::GameIdRequired)
    } else if !games.contains_key(id) {
        Some(Refusal::NotFound)
    } else if !games[id].on_board(point) {
        Some(Refusal::OutOfBounds)
    } else {
        None
    }
}

/// `error` says that the request names no game.
pub open spec fn is_game_id_required(error: AppError) -> bool {
    error matches AppError::BadRequest(text) && text@ == "Game ID is required"@
}

/// `error` says that no game has the id `id`, which it names in decimal.
pub open spec fn is_not_found(error: AppError, id: i32) -> bool {
    error matches AppError::NotFound(text) && to_string_from_display_ensures::<i32>(&id, text)
}

/// `error` says that the point is not on the board.
pub open spec fn is_out_of_bounds(error: AppError) -> bool {
    error matches AppError::BadRequest(text) && text@ == "Coordinates out of bounds"@
}

/// `error` is the error that reports `why` for game `id`.
pub open spec fn reports(error: AppError, why: Refusal, id: i32) -> bool {
    match why {
        Refusal::Unauthorized => error is Unauthorized,
        Refusal::GameIdRequired => is_game_id_required(error),
        Refusal::NotFound => is_not_found(error, id),
        Refusal::OutOfBounds => is_out_of_bounds(error),
    }
}

/// `r` is the answer to a request for the game `id`: `BadRequest` for
/// the id 0, `NotFound` where no game has the id, the stored game otherwise.
pub open spec fn fetched(games: Map<i32, GameModel>, id: i32, r: AppResult<MinesweeperGame>) -> bool {
    if id == 0 {
        r matches Err(e) && is_game_id_required(e)
    } else if !games.contains_key(id) {
        r matches Err(e) && is_not_found(e, id)
    } else {
        r matches Ok(game) && game@ == games[id] && game.wf()
    }
}

/// A move at `point` leaves the game as it is: the game is over, or the
/// cell is revealed or flagged already.
pub open spec fn move_is_void(g: GameModel, point: Point) -> bool {
    g.is_over() || g.moves.contains(point) || g.flag_points.contains(point)
}

/// A flag at `point` leaves the game as it is: the game is over, or the
/// cell is revealed already.
pub open spec fn flag_is_void(g: GameModel, point: Point) -> bool {
    g.is_over() || g.moves.contains(point)
}

/// `after` is `before` after a move at `point` that takes effect: the
/// mines are generated if they were not, with `point` as the first
/// click, and the cells that the click reveals are added to the moves.
pub open spec fn moved(before: GameModel, after: GameModel, point: Point) -> bool {
    let prepared = GameModel { moves: before.moves, ..after };
    &&& if before.mines_generated {
        prepared == before
    } else {
        generated_from(prepared, before, point)
    }
    &&& after.moves == before.moves.union(reveal_set(prepared, point))
}

/// The game after a flag toggle at `point` that takes effect.
pub open spec fn toggled(g: GameModel, point: Point) -> GameModel {
    if g.flag_points.contains(point) {
        g.without_flag(point)
    } else {
        g.with_flag(point)
    }
}

/// How many of `games` have the status `status`.
pub open spec fn count_status(games: Seq<GameModel>, status: GameStatus) -> nat
    decreases games.len(),
{
    if games.len() == 0 {
        0
    } else {
        count_status(games.drop_last(), status) + if games.last().status() == status {
            1nat
        } else {
            0nat
        }
    }
}

/// No more games are found than ids are asked for.
pub proof fn lemma_found_games_bound(games: Map<i32, GameModel>, ids: Seq<i32>)
    ensures
        found_games(games, ids).len() <= ids.len(),
    decreases ids.len(),
{
    if ids.len() > 0 {
        lemma_found_games_bound(games, ids.drop_last());
    }
}

/// What a click reveals lies on the board.
pub proof fn lemma_reveal_on_board(g: GameModel, p: Point, q: Point)
    requires
        g.wf(),
        g.on_board(p),
        reveal_set(g, p).contains(q),
    ensures
        g.on_board(q),
{
    if g.mines_generated && g.cell(p) != BoardState::Mine && g.cell(p) == BoardState::Zero {
        lemma_reached_on_board(g, p, q);
    }
}

/// What is left to do for a move once the game is at hand.
#[derive(Debug)]
pub enum MovePlan {
    /// Nothing: the move leaves the game as it is.
    Unchanged,
    /// Reveal `points`. With `save_first` the mines were generated just
    /// now, and the whole game is stored before the points are added.
    Reveal { save_first: bool, points: Vec<Point> },
}

/// What is left to do for a flag once the game is at hand.
#[derive(Clone, Copy, Debug, PartialEq, Eq, Structural)]
pub enum FlagPlan {
    /// Nothing: the flag leaves the game as it is.
    Unchanged,
    /// Put a flag at the point.
    Add,
    /// Take the flag at the point away.
    Remove,
}

/// Refuses the id 0, which names no game.
pub fn require_game_id(id: i32) -> (r: AppResult<()>)
    ensures
        if id == 0 {
            r matches Err(e) && is_game_id_required(e)
        } else {
            r is Ok
        },
{
    if id == 0 {
        Err(AppError::BadRequest("Game ID is required".to_owned()))
    } else {
        Ok(())
    }
}

/// Turns what the repository found under `id` into the answer: the game,
/// or `NotFound` with the id.
pub fn require_game(id: i32, found: Option<MinesweeperGame>) -> (r: AppResult<MinesweeperGame>)
    ensures
        match found {
            Some(game) => r == Ok::<MinesweeperGame, AppError>(game),
            None => r matches Err(e) && is_not_found(e, id),
        },
{
    match found {
        Some(game) => Ok(game),
        None => Err(AppError::NotFound(id.to_string())),
    }
}

/// Decides what a move at `point` does to `game`. Where the move takes
/// effect and the mines are not generated yet, generates them with
/// `point` as the first click.
pub fn plan_move<E: BoardEngine>(engine: &E, game: &mut MinesweeperGame, point: Point) -> (r:
    AppResult<MovePlan>)
    requires
        old(game).wf(),
    ensures
        final(game).wf(),
        if !old(game)@.on_board(point) {
            final(game)@ == old(game)@ && (r matches Err(e) && is_out_of_bounds(e))
        } else if move_is_void(old(game)@, point) {
            final(game)@ == old(game)@ && r matches Ok(MovePlan::Unchanged)
        } else {
            r matches Ok(MovePlan::Reveal { save_first, points }) && {
                &&& save_first == !old(game)@.mines_generated
                &&& if old(game)@.mines_generated {
                    final(game)@ == old(game)@
                } else {
                    generated_from(final(game)@, old(game)@, point)
                }
                &&& points@.no_duplicates()
                &&& points@.to_set() == reveal_set(final(game)@, point)
            }
        },
{
    if !game.is_valid_point(&point) {
        return Err(AppError::BadRequest("Coordinates out of bounds".to_owned()));
    }
    if game.is_game_over() || game.is_point_revealed(&point) || game.is_point_flagged(&point) {
        return Ok(MovePlan::Unchanged);
    }
    let save_first = !game.mines_generated;
    if save_first {
        engine.generate_mines(game, point);
    }
    let points = engine.get_reveal_points(game, point);
    Ok(MovePlan::Reveal { save_first, points })
}

/// Decides what a flag toggle at `point` does to `game`.
pub fn plan_flag(game: &MinesweeperGame, point: Point) -> (r: AppResult<FlagPlan>)
    requires
        game.wf(),
    ensures
        if !game@.on_board(point) {
            r matches Err(e) && is_out_of_bounds(e)
        } else if flag_is_void(game@, point) {
            r matches Ok(FlagPlan::Unchanged)
        } else if game@.flag_points.contains(point) {
            r matches Ok(FlagPlan::Remove)
        } else {
            r matches Ok(FlagPlan::Add)
        },
{
    if !game.is_valid_point(&point) {
        return Err(AppError::BadRequest("Coordinates out of bounds".to_owned()));
    }
    if game.is_game_over() || game.is_point_revealed(&point) {
        return Ok(FlagPlan::Unchanged);
    }
    if game.is_point_flagged(&point) {
        Ok(FlagPlan::Remove)
    } else {
        Ok(FlagPlan::Add)
    }
}

/// Decides whether `user` may act on a game whose recorded owner is `owner`.
pub fn decide_ownership(owner: &Option<String>, user: &Option<UserInfo>) -> (r: AppResult<()>)
    ensures
        allowed(text_of(*owner), caller_of(*user)) ==> r is Ok,
        !allowed(text_of(*owner), caller_of(*user)) ==> r matches Err(AppError::Unauthorized),
{
    match owner {
        None => Ok(()),
        Some(o) => match user {
            Some(u) => {
                if *o == u.sub {
                    Ok(())
                } else {
                    Err(AppError::Unauthorized)
                }
            },
            None => Err(AppError::Unauthorized),
        },
    }
}

/// Counts the won, the lost and the other games.
pub fn tally_games(games: &Vec<MinesweeperGame>) -> (stats: UserStatsDto)
    requires
        games@.len() <= i32::MAX,
        forall|i: int| 0 <= i < games@.len() ==> (#[trigger] games@[i]).wf(),
    ensures
        stats.won == count_status(game_views(games@), GameStatus::Won),
        stats.lost == count_status(game_views(games@), GameStatus::Lost),
        stats.in_progress == count_status(game_views(games@), GameStatus::InProgress),
{
    let mut won: i32 = 0;
    let mut lost: i32 = 0;
    let mut in_progress: i32 = 0;
    let mut i: usize = 0;
    while i < games.len()
        invariant
            i <= games@.len(),
            games@.len() <= i32::MAX,
            forall|k: int| 0 <= k < games@.len() ==> (#[trigger] games@[k]).wf(),
            won == count_status(game_views(games@).subrange(0, i as int), GameStatus::Won),
            lost == count_status(game_views(games@).subrange(0, i as int), GameStatus::Lost),
            in_progress == count_status(
                game_views(games@).subrange(0, i as int),
                GameStatus::InProgress,
            ),
            won + lost + in_progress == i,
        decreases games@.len() - i,
    {
        proof {
            let next = game_views(games@).subrange(0, i + 1);
            assert(next.drop_last() =~= game_views(games@).subrange(0, i as int));
        }
        let game = &games[i];
        if game.is_game_won() {
            won += 1;
        } else if game.is_game_lost() {
            lost += 1;
        } else {
            in_progress += 1;
        }
        i += 1;
    }
    assert(game_views(games@).subrange(0, games@.len() as int) =~= game_views(games@));
    UserStatsDto { won, lost, in_progress }
}

/// What the service offers: games are created, fetched, played and
/// tallied. `games` and `index` are what the service keeps, `counters`
/// what it has counted: each game that it created and each move that
/// took effect.
pub trait GameService {
    /// The stored games by id.
    spec fn games(&self) -> Map<i32, GameModel>;

    /// The user index.
    spec fn index(&self) -> UserIndex;

    /// What the service has counted.
    spec fn counters(&self) -> Counters;

    /// The repository is well formed.
    spec fn wf(&self) -> bool;

    fn get_game(&self, id: i32) -> (r: AppResult<MinesweeperGame>)
        requires
            self.wf(),
        ensures
            fetched(self.games(), id, r),
    ;

    /// Creates a game, stores it and, for a known caller, records the
    /// caller as its creator.
    fn create_game(
        &mut self,
        cols: usize,
        rows: usize,
        mines: usize,
        user: Option<UserInfo>,
    ) -> (r: AppResult<MinesweeperGame>)
        requires
            old(self).wf(),
            cols * rows <= usize::MAX,
        ensures
            final(self).wf(),
            r matches Ok(game) && {
                &&& game.wf()
                &&& 1 <= game.id < i32::MAX
                &&& game@ == GameModel::fresh(game.id, game.created_at, cols, rows, mines)
                &&& final(self).games() == old(self).games().insert(game.id, game@)
                &&& final(self).index() == match user {
                    Some(info) => with_mapping(old(self).index(), info.sub@, game.id),
                    None => old(self).index(),
                }
                &&& final(self).counters() == old(self).counters().spec_plus(started_steps())
            },
    ;

    /// Reveals the cell at `point` of the game `id` for the caller `user`.
    fn make_move(&mut self, id: i32, point: Point, user: Option<UserInfo>) -> (r: AppResult<
        MinesweeperGame,
    >)
        requires
            old(self).wf(),
        ensures
            final(self).wf(),
            final(self).index() == old(self).index(),
            match refusal(old(self).games(), old(self).index(), id, point, caller_of(user)) {
                Some(why) => {
                    &&& r matches Err(e) && reports(e, why, id)
                    &&& final(self).games() == old(self).games()
                    &&& final(self).counters() == old(self).counters()
                },
                None => r matches Ok(game) && game.wf() && if move_is_void(
                    old(self).games()[id],
                    point,
                ) {
                    &&& game@ == old(self).games()[id]
                    &&& final(self).games() == old(self).games()
                    &&& final(self).counters() == old(self).counters()
                } else {
                    &&& moved(old(self).games()[id], game@, point)
                    &&& final(self).games() == old(self).games().insert(id, game@)
                    &&& final(self).counters() == old(self).counters().spec_plus(move_steps(game@))
                },
            },
    ;

    /// Flags the cell at `point` of the game `id`, or takes its flag
    /// away, for the caller `user`.
    fn toggle_flag(&mut self, id: i32, point: Point, user: Option<UserInfo>) -> (r: AppResult<
        MinesweeperGame,
    >)
        requires
            old(self).wf(),
        ensures
            final(self).wf(),
            final(self).index() == old(self).index(),
            final(self).counters() == old(self).counters(),
            match refusal(old(self).games(), old(self).index(), id, point, caller_of(user)) {
                Some(why) => r matches Err(e) && reports(e, why, id) && final(self).games() == old(
                    self,
                ).games(),
                None => r matches Ok(game) && game.wf() && if flag_is_void(
                    old(self).games()[id],
                    point,
                ) {
                    game@ == old(self).games()[id] && final(self).games() == old(self).games()
                } else {
                    game@ == toggled(old(self).games()[id], point) && final(self).games() == old(
                        self,
                    ).games().insert(id, game@)
                },
            },
    ;

    /// The games that `user` created and that are stored, in the order in
    /// which they were recorded.
    fn get_user_games(&self, user: UserInfo) -> (r: AppResult<Vec<MinesweeperGame>>)
        requires
            self.wf(),
        ensures
            r matches Ok(games) && game_views(games@) == found_games(
                self.games(),
                ids_of(self.index(), user.sub@),
            ) && forall|i: int| 0 <= i < games@.len() ==> (#[trigger] games@[i]).wf(),
    ;

    /// How many of the games of `user` are won, lost and in progress.
    fn get_user_stats(&self, user: UserInfo) -> (r: AppResult<UserStatsDto>)
        requires
            self.wf(),
            ids_of(self.index(), user.sub@).len() <= i32::MAX,
        ensures
            r matches Ok(stats) && {
                let games = found_games(self.games(), ids_of(self.index(), user.sub@));
                &&& stats.won == count_status(games, GameStatus::Won)
                &&& stats.lost == count_status(games, GameStatus::Lost)
                &&& stats.in_progress == count_status(games, GameStatus::InProgress)
            },
    ;
}

/// The service over a repository and an engine.
pub struct MinesweeperService<R: MinesweeperRepository, E: BoardEngine> {
    pub repo: R,
    pub engine: E,
    pub counters: Counters,
}

impl<R: MinesweeperRepository, E: BoardEngine> MinesweeperService<R, E> {
    pub fn new(repo: R, engine: E) -> (service: MinesweeperService<R, E>)
        requires
            repo.wf(),
        ensures
            service.wf(),
            service.games() == repo.games(),
            service.index() == repo.index(),
            service.counters() == Counters::zero(),
    {
        MinesweeperService { repo, engine, counters: Counters::zero() }
    }

    /// The game stored under `id`: `BadRequest` for the id 0, `NotFound`
    /// where no game has the id.
    fn fetch_game(&self, id: i32) -> (r: AppResult<MinesweeperGame>)
        requires
            self.wf(),
        ensures
            fetched(self.games(), id, r),
    {
        match require_game_id(id) {
            Err(e) => Err(e),
            Ok(_) => require_game(id, self.repo.get_game(id)),
        }
    }

    /// Whether `user` may act on the game `game_id`.
    pub fn check_ownership(&self, game_id: i32, user: &Option<UserInfo>) -> (r: AppResult<()>)
        ensures
            allowed(owner_of(self.index(), game_id), caller_of(*user)) ==> r is Ok,
            !allowed(owner_of(self.index(), game_id), caller_of(*user)) ==> r matches Err(
                AppError::Unauthorized,
            ),
    {
        let owner = self.repo.get_game_owner(game_id);
        decide_ownership(&owner, user)
    }
}

impl<R: MinesweeperRepository, E: BoardEngine> GameService for MinesweeperService<R, E> {
    open spec fn games(&self) -> Map<i32, GameModel> {
        self.repo.games()
    }

    open spec fn index(&self) -> UserIndex {
        self.repo.index()
    }

    open spec fn counters(&self) -> Counters {
        self.counters
    }

    open spec fn wf(&self) -> bool {
        self.repo.wf()
    }

    fn get_game(&self, id: i32) -> (r: AppResult<MinesweeperGame>) {
        self.fetch_game(id)
    }

    fn create_game(
        &mut self,
        cols: usize,
        rows: usize,
        mines: usize,
        user: Option<UserInfo>,
    ) -> (r: AppResult<MinesweeperGame>) {
        let game = MinesweeperGame::new(cols, rows, mines);
        self.repo.save(game.clone());
        match user {
            Some(info) => {
                self.repo.add_mapping(info.sub.as_str(), game.id);
            },
            None => {},
        }
        self.counters = self.counters.plus(game_started());
        Ok(game)
    }

    fn make_move(&mut self, id: i32, point: Point, user: Option<UserInfo>) -> (r: AppResult<
        MinesweeperGame,
    >) {
        match self.check_ownership(id, &user) {
            Err(e) => {
                return Err(e);
            },
            Ok(_) => {},
        }
        let mut game = match self.fetch_game(id) {
            Err(e) => {
                return Err(e);
            },
            Ok(game) => game,
        };
        proof {
            self.repo.lemma_games_wf(id);
        }
        match plan_move(&self.engine, &mut game, point) {
            Err(e) => Err(e),
            Ok(MovePlan::Unchanged) => Ok(game),
            Ok(MovePlan::Reveal { save_first, points }) => {
                if save_first {
                    self.repo.save(game.clone());
                }
                let ghost prepared = game@;
                proof {
                    assert forall|k: int| 0 <= k < points@.len() implies prepared.on_board(
                        #[trigger] points@[k],
                    ) by {
                        lemma_reveal_on_board(prepared, point, points@[k]);
                    }
                }
                let updated = self.repo.add_moves(id, points.as_slice());
                match require_game(id, updated) {
                    Ok(game) => {
                        self.counters = self.counters.plus(move_made(&game));
                        Ok(game)
                    },
                    Err(e) => Err(e),
                }
            },
        }
    }

    fn toggle_flag(&mut self, id: i32, point: Point, user: Option<UserInfo>) -> (r: AppResult<
        MinesweeperGame,
    >) {
        match self.check_ownership(id, &user) {
            Err(e) => {
                return Err(e);
            },
            Ok(_) => {},
        }
        let game = match self.fetch_game(id) {
            Err(e) => {
                return Err(e);
            },
            Ok(game) => game,
        };
        match plan_flag(&game, point) {
            Err(e) => Err(e),
            Ok(FlagPlan::Unchanged) => Ok(game),
            Ok(FlagPlan::Remove) => require_game(id, self.repo.remove_flag(id, point)),
            Ok(FlagPlan::Add) => require_game(id, self.repo.add_flag(id, point)),
        }
    }

    fn get_user_games(&self, user: UserInfo) -> (r: AppResult<Vec<MinesweeperGame>>) {
        let game_ids = self.repo.get_game_ids_by_user_id(user.sub.as_str());
        Ok(self.repo.get_games_by_ids(game_ids.as_slice()))
    }

    fn get_user_stats(&self, user: UserInfo) -> (r: AppResult<UserStatsDto>) {
        let game_ids = self.repo.get_game_ids_by_user_id(user.sub.as_str());
        let games = self.repo.get_games_by_ids(game_ids.as_slice());
        proof {
            lemma_found_games_bound(self.repo.games(), game_ids@);
        }
        Ok(tally_games(&games))
    }
}

} // verus!
