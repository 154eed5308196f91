//! The repository: the games by id, and for each user the games they
//! created. Its contract is a pair of traits over one state; the volatile
//! repository keeps that state in memory. Every method is one step on
//! the whole store: whoever shares a repository between callers guards it
//! with a lock and calls the method inside the critical section.

use crate::board::Point;
use crate::game::GameModel;
use crate::game::MinesweeperGame;
use std::collections::HashMap;
use vstd::prelude::*;

verus! {

/// The games that one user created, in the order in which they were recorded.
#[derive(Debug)]
pub struct UserGames {
    pub user_id: String,
    pub game_ids: Vec<i32>,
}

/// The user index as a sequence of users, each with their game ids.
pub type UserIndex = Seq<(Seq<char>, Seq<i32>)>;

/// The place of the first entry for `user` at or after `from`.
pub open spec fn entry_from(index: UserIndex, user: Seq<char>, from: int) -> Option<int>
    decreases index.len() - from,
{
    if from < 0 || from >= index.len() {
        None
    } else if index[from].0 == user {
        Some(from)
    } else {
        entry_from(index, user, from + 1)
    }
}

/// The game ids recorded for `user`; none if the user is unknown.
pub open spec fn ids_of(index: UserIndex, user: Seq<char>) -> Seq<i32> {
    match entry_from(index, user, 0) {
        Some(i) => index[i].1,
        None => Seq::empty(),
    }
}

/// The place of the first entry at or after `from` that holds `game_id`.
pub open spec fn holder_from(index: UserIndex, game_id: i32, from: int) -> Option<int>
    decreases index.len() - from,
{
    if from < 0 || from >= index.len() {
        None
    } else if index[from].1.contains(game_id) {
        Some(from)
    } else {
        holder_from(index, game_id, from + 1)
    }
}

/// The recorded owner of a game: the first user whose games hold its id.
pub open spec fn owner_of(index: UserIndex, game_id: i32) -> Option<Seq<char>> {
    match holder_from(index, game_id, 0) {
        Some(i) => Some(index[i].0),
        None => None,
    }
}

/// The index after recording that `user` created `game_id`. A known
/// user gets the id appended unless it is there already; an unknown user
/// gets an entry of their own at the end.
pub open spec fn with_mapping(index: UserIndex, user: Seq<char>, game_id: i32) -> UserIndex {
    match entry_from(index, user, 0) {
        Some(i) => if index[i].1.contains(game_id) {
            index
        } else {
            index.update(i, (user, index[i].1.push(game_id)))
        },
        None => index.push((user, seq![game_id])),
    }
}

/// The stored games among `ids`, in the order of `ids`.
pub open spec fn found_games(games: Map<i32, GameModel>, ids: Seq<i32>) -> Seq<GameModel>
    decreases ids.len(),
{
    if ids.len() == 0 {
        Seq::empty()
    } else {
        let rest = found_games(games, ids.drop_last());
        if games.contains_key(ids.last()) {
            rest.push(games[ids.last()])
        } else {
            rest
        }
    }
}

/// The models of a sequence of games.
pub open spec fn game_views(games: Seq<MinesweeperGame>) -> Seq<GameModel> {
    Seq::new(games.len(), |i: int| games[i]@)
}

/// No user has two entries, and no entry holds an id twice.
pub open spec fn index_wf(index: UserIndex) -> bool {
    &&& forall|i: int, j: int|
        0 <= i < j < index.len() ==> (#[trigger] index[i]).0 != (#[trigger] index[j]).0
    &&& forall|i: int| 0 <= i < index.len() ==> (#[trigger] index[i]).1.no_duplicates()
}

/// Whether `ids` holds `id`.
pub fn contains_id(ids: &Vec<i32>, id: i32) -> (b: bool)
    ensures
        b == ids@.contains(id),
{
    let mut i: usize = 0;
    while i < ids.len()
        invariant
            i <= ids@.len(),
            forall|j: int| 0 <= j < i ==> ids@[j] != id,
        decreases ids@.len() - i,
    {
        if ids[i] == id {
            return true;
        }
        i += 1;
    }
    false
}

/// What a repository holds: the games by id and the user index.
pub trait RepositoryState {
    /// The stored games by id.
    spec fn games(&self) -> Map<i32, GameModel>;

    /// The user index.
    spec fn index(&self) -> UserIndex;

    /// The invariant of the repository.
    spec fn wf(&self) -> bool;

    /// In a well-formed repository every stored game is well formed and
    /// stored under its own id, and the index is well formed.
    proof fn lemma_games_wf(&self, id: i32)
        requires
            self.wf(),
            self.games().contains_key(id),
        ensures
            self.games()[id].wf(),
            self.games()[id].id == id,
            index_wf(self.index()),
    ;
}

/// Game storage. Each method that changes a game is one step: what it
/// returns and what is stored afterwards is the game after the whole
/// change, and no other game and no mapping is touched.
pub trait GameRepository: RepositoryState {
    /// The game stored under `id`, if there is one.
    fn get_game(&self, id: i32) -> (found: Option<MinesweeperGame>)
        requires
            self.wf(),
        ensures
            match found {
                Some(game) => self.games().contains_key(id) && game@ == self.games()[id]
                    && game.wf(),
                None => !self.games().contains_key(id),
            },
    ;

    /// The stored games among `ids`, in the order of `ids`; ids without a
    /// game are passed over.
    fn get_games_by_ids(&self, ids: &[i32]) -> (found: Vec<MinesweeperGame>)
        requires
            self.wf(),
        ensures
            game_views(found@) == found_games(self.games(), ids@),
            forall|i: int| 0 <= i < found@.len() ==> (#[trigger] found@[i]).wf(),
    ;

    /// Stores `game` under its id, in place of any game stored there.
    fn save(&mut self, game: MinesweeperGame)
        requires
            old(self).wf(),
            game.wf(),
        ensures
            final(self).wf(),
            final(self).games() == old(self).games().insert(game.id, game@),
            final(self).index() == old(self).index(),
    ;

    /// Reveals `points` in the game stored under `id` and returns the
    /// game as it is afterwards.
    fn add_moves(&mut self, id: i32, points: &[Point]) -> (updated: Option<MinesweeperGame>)
        requires
            old(self).wf(),
            old(self).games().contains_key(id) ==> forall|k: int|
                0 <= k < points@.len() ==> old(self).games()[id].on_board(#[trigger] points@[k]),
        ensures
            final(self).wf(),
            final(self).index() == old(self).index(),
            match updated {
                Some(game) => {
                    &&& old(self).games().contains_key(id)
                    &&& game.wf()
                    &&& game@ == old(self).games()[id].with_moves(points@.to_set())
                    &&& final(self).games() == old(self).games().insert(id, game@)
                },
                None => !old(self).games().contains_key(id) && final(self).games() == old(
                    self,
                ).games(),
            },
    ;

    /// Puts a flag at `point` in the game stored under `id` and returns
    /// the game as it is afterwards.
    fn add_flag(&mut self, id: i32, point: Point) -> (updated: Option<MinesweeperGame>)
        requires
            old(self).wf(),
            old(self).games().contains_key(id) ==> old(self).games()[id].on_board(point),
        ensures
            final(self).wf(),
            final(self).index() == old(self).index(),
            match updated {
                Some(game) => {
                    &&& old(self).games().contains_key(id)
                    &&& game.wf()
                    &&& game@ == old(self).games()[id].with_flag(point)
                    &&& final(self).games() == old(self).games().insert(id, game@)
                },
                None => !old(self).games().contains_key(id) && final(self).games() == old(
                    self,
                ).games(),
            },
    ;

    /// Takes the flag at `point` away in the game stored under `id` and
    /// returns the game as it is afterwards.
    fn remove_flag(&mut self, id: i32, point: Point) -> (updated: Option<MinesweeperGame>)
        requires
            old(self).wf(),
        ensures
            final(self).wf(),
            final(self).index() == old(self).index(),
            match updated {
                Some(game) => {
                    &&& old(self).games().contains_key(id)
                    &&& game.wf()
                    &&& game@ == old(self).games()[id].without_flag(point)
                    &&& final(self).games() == old(self).games().insert(id, game@)
                },
                None => !old(self).games().contains_key(id) && final(self).games() == old(
                    self,
                ).games(),
            },
    ;
}

/// User index storage.
pub trait UserGameRepository: RepositoryState {
    /// Records that `user_id` created `game_id`. Recording the same
    /// pair again changes nothing.
    fn add_mapping(&mut self, user_id: &str, game_id: i32)
        requires
            old(self).wf(),
        ensures
            final(self).wf(),
            final(self).games() == old(self).games(),
            final(self).index() == with_mapping(old(self).index(), user_id@, game_id),
    ;

    /// The ids of the games that `user_id` created, in the order in which
    /// they were recorded.
    fn get_game_ids_by_user_id(&self, user_id: &str) -> (ids: Vec<i32>)
        ensures
            ids@ == ids_of(self.index(), user_id@),
    ;

    /// The recorded owner of `game_id`, if it has one.
    fn get_game_owner(&self, game_id: i32) -> (owner: Option<String>)
        ensures
            match owner {
                Some(user) => owner_of(self.index(), game_id) == Some(user@),
                None => owner_of(self.index(), game_id).is_none(),
            },
    ;
}

/// Both groups of methods over one state.
pub trait MinesweeperRepository: GameRepository + UserGameRepository {}

impl<T: GameRepository + UserGameRepository> MinesweeperRepository for T {}

/// An edit of one game.
pub enum GameEdit<'a> {
    /// Reveal the points.
    AddMoves(&'a [Point]),
    /// Put a flag at the point.
    AddFlag(Point),
    /// Take the flag at the point away.
    RemoveFlag(Point),
}

impl<'a> GameEdit<'a> {
    /// Every point that the edit adds lies on the board of `g`.
    pub open spec fn fits(self, g: GameModel) -> bool {
        match self {
            GameEdit::AddMoves(points) => forall|k: int|
                0 <= k < points@.len() ==> g.on_board(#[trigger] points@[k]),
            GameEdit::AddFlag(point) => g.on_board(point),
            GameEdit::RemoveFlag(_) => true,
        }
    }

    /// The game `g` after the edit.
    pub open spec fn apply(self, g: GameModel) -> GameModel {
        match self {
            GameEdit::AddMoves(points) => g.with_moves(points@.to_set()),
            GameEdit::AddFlag(point) => g.with_flag(point),
            GameEdit::RemoveFlag(point) => g.without_flag(point),
        }
    }
}

/// The volatile repository: a map of games and a list of users.
pub struct InMemoryGameRepository {
    games: HashMap<i32, MinesweeperGame>,
    user_games: Vec<UserGames>,
}

impl RepositoryState for InMemoryGameRepository {
    /// The stored games by id.
    closed spec fn games(&self) -> Map<i32, GameModel> {
        Map::new(|id: i32| self.games@.contains_key(id), |id: i32| self.games@[id]@)
    }

    /// The user index.
    closed spec fn index(&self) -> UserIndex {
        Seq::new(
            self.user_games@.len(),
            |i: int| (self.user_games@[i].user_id@, self.user_games@[i].game_ids@),
        )
    }

    /// Every stored game is well formed and stored under its own id, and
    /// the index is well formed.
    closed spec fn wf(&self) -> bool {
        &&& forall|id: i32| #[trigger]
            self.games@.contains_key(id) ==> self.games@[id].wf() && self.games@[id].id == id
        &&& index_wf(self.index())
    }

    proof fn lemma_games_wf(&self, id: i32) {
    }
}

impl InMemoryGameRepository {
    pub fn new() -> (repo: InMemoryGameRepository)
        ensures
            repo.wf(),
            repo.games() == Map::<i32, GameModel>::empty(),
            repo.index() == Seq::<(Seq<char>, Seq<i32>)>::empty(),
    {
        let repo = InMemoryGameRepository { games: HashMap::new(), user_games: Vec::new() };
        repo
    }

    /// Edits the game stored under `id` in one step and returns the game
    /// as it is afterwards; does nothing where no game has the id.
    fn update_game(&mut self, id: i32, edit: GameEdit<'_>) -> (updated: Option<MinesweeperGame>)
        requires
            old(self).wf(),
            old(self).games().contains_key(id) ==> edit.fits(old(self).games()[id]),
        ensures
            final(self).wf(),
            final(self).index() == old(self).index(),
            match updated {
                Some(game) => {
                    &&& old(self).games().contains_key(id)
                    &&& game.wf()
                    &&& game@ == edit.apply(old(self).games()[id])
                    &&& final(self).games() == old(self).games().insert(id, game@)
                },
                None => !old(self).games().contains_key(id) && final(self).games() == old(
                    self,
                ).games(),
            },
    {
        match self.games.remove(&id) {
            Some(mut game) => {
                match edit {
                    GameEdit::AddMoves(points) => game.add_moves(points),
                    GameEdit::AddFlag(point) => game.add_flag(point),
                    GameEdit::RemoveFlag(point) => game.remove_flag(&point),
                }
                let copy = game.clone();
                self.games.insert(id, game);
                Some(copy)
            },
            None => {
                None
            },
        }
    }

    /// The place of the entry of `user_id` in the index.
    fn find_user(&self, user_id: &String) -> (place: Option<usize>)
        ensures
            match place {
                Some(i) => entry_from(self.index(), user_id@, 0) == Some(i as int) && i
                    < self.user_games@.len(),
                None => entry_from(self.index(), user_id@, 0).is_none(),
            },
    {
        let mut i: usize = 0;
        while i < self.user_games.len()
            invariant
                i <= self.user_games@.len(),
                entry_from(self.index(), user_id@, 0) == entry_from(
                    self.index(),
                    user_id@,
                    i as int,
                ),
            decreases self.user_games@.len() - i,
        {
            if self.user_games[i].user_id == *user_id {
                return Some(i);
            }
            i += 1;
        }
        None
    }
}

impl GameRepository for InMemoryGameRepository {
    fn get_game(&self, id: i32) -> (found: Option<MinesweeperGame>) {
        match self.games.get(&id) {
            Some(game) => {
                Some(game.clone())
            },
            None => None,
        }
    }

    fn get_games_by_ids(&self, ids: &[i32]) -> (found: Vec<MinesweeperGame>) {
        let mut found: Vec<MinesweeperGame> = Vec::new();
        let mut i: usize = 0;
        while i < ids.len()
            invariant
                i <= ids@.len(),
                self.wf(),
                game_views(found@) == found_games(self.games(), ids@.subrange(0, i as int)),
                forall|k: int| 0 <= k < found@.len() ==> (#[trigger] found@[k]).wf(),
            decreases ids@.len() - i,
        {
            let ghost before = found@;
            let ghost next = ids@.subrange(0, i + 1);
            assert(next.drop_last() =~= ids@.subrange(0, i as int));
            match self.get_game(ids[i]) {
                Some(game) => {
                    found.push(game);
                    assert(game_views(found@) =~= game_views(before).push(
                        self.games()[ids@[i as int]],
                    ));
                },
                None => {},
            }
            i += 1;
        }
        assert(ids@.subrange(0, ids@.len() as int) =~= ids@);
        found
    }

    fn save(&mut self, game: MinesweeperGame) {
        let id = game.id;
        self.games.insert(id, game);
    }

    fn add_moves(&mut self, id: i32, points: &[Point]) -> (updated: Option<MinesweeperGame>) {
        self.update_game(id, GameEdit::AddMoves(points))
    }

    fn add_flag(&mut self, id: i32, point: Point) -> (updated: Option<MinesweeperGame>) {
        self.update_game(id, GameEdit::AddFlag(point))
    }

    fn remove_flag(&mut self, id: i32, point: Point) -> (updated: Option<MinesweeperGame>) {
        self.update_game(id, GameEdit::RemoveFlag(point))
    }
}

impl UserGameRepository for InMemoryGameRepository {
    fn add_mapping(&mut self, user_id: &str, game_id: i32) {
        let user = user_id.to_owned();
        match self.find_user(&user) {
            Some(i) => {
                if !contains_id(&self.user_games[i].game_ids, game_id) {
                    self.user_games[i].game_ids.push(game_id);
                    proof {
                        let before = old(self).index();
                        let after = self.index();
                        lemma_entry_is_first(before, user@, i as int);
                        assert(after =~= before.update(
                            i as int,
                            (user@, before[i as int].1.push(game_id)),
                        ));
                    }
                }
            },
            None => {
                let mut game_ids: Vec<i32> = Vec::new();
                game_ids.push(game_id);
                self.user_games.push(UserGames { user_id: user, game_ids });
                proof {
                    let before = old(self).index();
                    let after = self.index();
                    assert(after =~= before.push((user_id@, seq![game_id])));
                    lemma_entry_absent(before, user_id@, 0);
                }
            },
        }
    }

    fn get_game_ids_by_user_id(&self, user_id: &str) -> (ids: Vec<i32>) {
        let user = user_id.to_owned();
        match self.find_user(&user) {
            Some(i) => {
                let stored = &self.user_games[i].game_ids;
                let mut ids: Vec<i32> = Vec::new();
                let mut k: usize = 0;
                while k < stored.len()
                    invariant
                        k <= stored@.len(),
                        ids@ == stored@.subrange(0, k as int),
                    decreases stored@.len() - k,
                {
                    ids.push(stored[k]);
                    k += 1;
                }
                ids
            },
            None => Vec::new(),
        }
    }

    fn get_game_owner(&self, game_id: i32) -> (owner: Option<String>) {
        let mut i: usize = 0;
        while i < self.user_games.len()
            invariant
                i <= self.user_games@.len(),
                holder_from(self.index(), game_id, 0) == holder_from(
                    self.index(),
                    game_id,
                    i as int,
                ),
            decreases self.user_games@.len() - i,
        {
            if contains_id(&self.user_games[i].game_ids, game_id) {
                return Some(self.user_games[i].user_id.clone());
            }
            i += 1;
        }
        None
    }
}

/// The entry of a user that `entry_from` finds at `i` is the user's.
pub proof fn lemma_entry_is_first(index: UserIndex, user: Seq<char>, i: int)
    requires
        entry_from(index, user, 0) == Some(i),
    ensures
        0 <= i < index.len(),
        index[i].0 == user,
{
    lemma_entry_found(index, user, 0, i);
}

proof fn lemma_entry_found(index: UserIndex, user: Seq<char>, from: int, i: int)
    requires
        entry_from(index, user, from) == Some(i),
    ensures
        from <= i < index.len(),
        index[i].0 == user,
    decreases index.len() - from,
{
    if 0 <= from < index.len() && index[from].0 != user {
        lemma_entry_found(index, user, from + 1, i);
    }
}

/// Where `entry_from` finds nothing, no entry from there on is the user's.
pub proof fn lemma_entry_absent(index: UserIndex, user: Seq<char>, from: int)
    requires
        0 <= from,
        entry_from(index, user, from).is_none(),
    ensures
        forall|i: int| from <= i < index.len() ==> (#[trigger] index[i]).0 != user,
    decreases index.len() - from,
{
    if from < index.len() {
        lemma_entry_absent(index, user, from + 1);
    }
}

} // verus!
