//! Sessions and their registry: a session wraps at most one match together
//! with the currently connected participants; the registry creates sessions
//! and finds them by id.

use vstd::prelude::*;

use crate::errors::GameError;
use crate::game::{Game, GameView, MAX_PLAYER};
use crate::utils::generate_short_uuid;

verus! {

/// Lifecycle of a session: open for joining, playing, or done.
#[derive(Debug, Clone, Copy, PartialEq, Eq, Structural)]
pub enum GameStateStatus {
    Lobby,
    InProgress,
    Finished,
}

/// One connected participant: their id and display name. The participant's
/// outbound message queue lives with the connection, outside the library.
#[derive(Debug)]
pub struct Participant {
    pub id: u64,
    pub name: String,
}

/// Mathematical model of a participant.
#[verifier::ext_equal]
pub ghost struct ParticipantView {
    pub id: u64,
    pub name: Seq<char>,
}

impl View for Participant {
    type V = ParticipantView;

    open spec fn view(&self) -> ParticipantView {
        ParticipantView { id: self.id, name: self.name@ }
    }
}

/// A session: its public id, lifecycle status, the match once one has been
/// started, and the connected participants in join order.
pub struct GameState {
    pub id: String,
    pub status: GameStateStatus,
    pub game: Option<Game>,
    pub players: Vec<Participant>,
}

/// Mathematical model of a session.
#[verifier::ext_equal]
pub ghost struct GameStateView {
    pub id: Seq<char>,
    pub status: GameStateStatus,
    pub game: Option<GameView>,
    pub players: Seq<ParticipantView>,
}

impl View for GameState {
    type V = GameStateView;

    open spec fn view(&self) -> GameStateView {
        GameStateView {
            id: self.id@,
            status: self.status,
            game: match self.game {
                Some(g) => Some(g@),
                None => None,
            },
            players: self.players@.map_values(|p: Participant| p@),
        }
    }
}

impl GameStateView {
    /// Structural well-formedness: the seat cap is respected, a match
    /// exists exactly once the session has left the lobby, and any match is
    /// itself well-formed.
    pub open spec fn wf(self) -> bool {
        &&& self.players.len() <= MAX_PLAYER
        &&& match self.game {
            Some(g) => g.wf() && !(self.status is Lobby),
            None => self.status is Lobby,
        }
    }

    /// A session accepts a new participant while it is still a lobby with a
    /// free seat.
    pub open spec fn joinable(self) -> bool {
        self.players.len() < MAX_PLAYER && self.status is Lobby
    }
}

impl GameState {
    /// Whether a new participant may join, with the rejection a client is
    /// given otherwise: a full session before a started one.
    pub fn can_join(&self) -> (r: Result<(), GameError>)
        ensures
            r is Ok <==> self@.joinable(),
            self@.players.len() >= MAX_PLAYER ==> r matches Err(GameError::GameFull),
            self@.players.len() < MAX_PLAYER && !(self@.status is Lobby) ==> r matches Err(
                GameError::GameAlreadyStarted,
            ),
    {
        if self.players.len() >= MAX_PLAYER {
            return Err(GameError::GameFull);
        }
        if self.status != GameStateStatus::Lobby {
            return Err(GameError::GameAlreadyStarted);
        }
        Ok(())
    }

    /// Seat a new participant, provided the session is still joinable.
    pub fn add_participant(&mut self, id: u64, name: String) -> (r: Result<(), GameError>)
        requires
            old(self)@.wf(),
        ensures
            final(self)@.wf(),
            old(self)@.joinable() ==> r is Ok && final(self)@ == (GameStateView {
                players: old(self)@.players.push(ParticipantView { id, name: name@ }),
                ..old(self)@
            }),
            !old(self)@.joinable() ==> (r matches Err(_)) && final(self)@ == old(self)@,
            old(self)@.players.len() >= MAX_PLAYER ==> r matches Err(GameError::GameFull),
            old(self)@.players.len() < MAX_PLAYER && !(old(self)@.status is Lobby) ==> r matches Err(
                GameError::GameAlreadyStarted,
            ),
    {
        match self.can_join() {
            Err(e) => Err(e),
            Ok(()) => {
                self.players.push(Participant { id, name });
                proof {
                    assert(self@.players =~= old(self)@.players.push(
                        self.players@.last()@,
                    ));
                    assert(self@ =~= (GameStateView {
                        players: old(self)@.players.push(self@.players.last()),
                        ..old(self)@
                    }));
                }
                Ok(())
            },
        }
    }

    /// The ids of the seated participants, in join order.
    pub fn participant_ids(&self) -> (r: Vec<u64>)
        ensures
            r@.len() == self@.players.len(),
            forall|i: int| 0 <= i < r@.len() ==> r@[i] == self@.players[i].id,
    {
        let mut ids: Vec<u64> = Vec::new();
        let mut i: usize = 0;
        while i < self.players.len()
            invariant
                i <= self.players@.len(),
                ids@.len() == i,
                forall|j: int| 0 <= j < i ==> ids@[j] == self@.players[j].id,
            decreases self.players@.len() - i,
        {
            ids.push(self.players[i].id);
            i = i + 1;
        }
        ids
    }

    /// Drop a participant from the connection table and, when a match is
    /// running, remove their seat from it as well: a leaving turn-holder
    /// first has their first hand card discarded on their behalf.
    pub fn remove_participant(&mut self, id: u64)
        requires
            old(self)@.wf(),
        ensures
            final(self)@.wf(),
            final(self)@.id == old(self)@.id,
            final(self)@.status == old(self)@.status,
            (forall|j: int|
                0 <= j < old(self)@.players.len() ==> (#[trigger] old(self)@.players[j]).id != id)
                ==> final(self)@.players == old(self)@.players,
            forall|i: int|
                (0 <= i < old(self)@.players.len() && (#[trigger] old(self)@.players[i]).id == id
                    && (forall|j: int| 0 <= j < i ==> old(self)@.players[j].id != id)) ==> final(self)@.players == old(self)@.players.remove(i),
            old(self)@.game is None ==> final(self)@.game is None,
            old(self)@.game matches Some(g) ==> final(self)@.game matches Some(g2) && {
                &&& (forall|j: int|
                    0 <= j < g.players.len() ==> (#[trigger] g.players[j]).id != id) ==> g2 == g
                &&& forall|i: int|
                    (0 <= i < g.players.len() && (#[trigger] g.players[i]).id == id && (forall|
                        j: int,
                    | 0 <= j < i ==> g.players[j].id != id)) ==> g2 == g.remove_player_step(i)
            },
    {
        let n = self.players.len();
        let mut pos: Option<usize> = None;
        let mut i: usize = 0;
        while i < n
            invariant
                n == self.players@.len(),
                i <= n,
                self == old(self),
                match pos {
                    Some(k) => k < i && self@.players[k as int].id == id && forall|j: int|
                        0 <= j < k ==> (#[trigger] self@.players[j]).id != id,
                    None => forall|j: int|
                        0 <= j < i ==> (#[trigger] self@.players[j]).id != id,
                },
            decreases n - i,
        {
            if pos.is_none() && self.players[i].id == id {
                pos = Some(i);
            }
            i = i + 1;
        }
        match pos {
            Some(k) => {
                self.players.remove(k);
                proof {
                    assert(self@.players =~= old(self)@.players.remove(k as int));
                }
            },
            None => {},
        }

        let ghost players_after = self@.players;
        match &mut self.game {
            Some(game) => {
                let _ = game.remove_player(id);
            },
            None => {},
        }
        proof {
            assert(self@.players == players_after);
        }
    }
}

/// What creating a session reports back: the fresh session's id and how
/// many participants it holds so far.
#[derive(Debug)]
pub struct CreateGameResponse {
    pub game_id: String,
    pub num_of_players: usize,
}

impl CreateGameResponse {
    /// Describe a session for the creation reply.
    pub fn for_session(state: &GameState) -> (r: CreateGameResponse)
        ensures
            r.game_id@ == state@.id,
            r.num_of_players == state@.players.len(),
    {
        CreateGameResponse {
            game_id: state.id.clone(),
            num_of_players: state.players.len(),
        }
    }
}

/// The session registry: the single shared root that creates sessions and
/// finds them by id.
pub struct GameManager {
    pub games: Vec<GameState>,
}

impl View for GameManager {
    type V = Seq<GameStateView>;

    open spec fn view(&self) -> Seq<GameStateView> {
        self.games@.map_values(|s: GameState| s@)
    }
}

impl GameManager {
    /// An empty registry.
    pub fn new() -> (r: Self)
        ensures
            r@ =~= Seq::<GameStateView>::empty(),
    {
        Self { games: Vec::new() }
    }

    /// Create a fresh lobby session under a newly generated id, register
    /// it, and hand it back.
    pub fn create_game(&mut self) -> (r: GameState)
        ensures
            r@.wf(),
            r@.status is Lobby,
            r@.game is None,
            r@.players.len() == 0,
            r@.id.len() >= 1,
            final(self)@ == old(self)@.push(r@),
    {
        let id = generate_short_uuid();
        let stored = GameState {
            id: id.clone(),
            status: GameStateStatus::Lobby,
            game: None,
            players: Vec::new(),
        };
        let ret = GameState {
            id,
            status: GameStateStatus::Lobby,
            game: None,
            players: Vec::new(),
        };
        proof {
            assert(stored@ =~= ret@);
        }
        self.games.push(stored);
        proof {
            assert(self@ =~= old(self)@.push(ret@));
        }
        ret
    }

    /// The registry slot of the session with the given id, scanning from
    /// the oldest; `None` when no session has that id.
    pub fn index_of(&self, game_id: &String) -> (r: Option<usize>)
        ensures
            match r {
                Some(i) => i < self@.len() && self@[i as int].id == game_id@ && forall|j: int|
                    0 <= j < i ==> (#[trigger] self@[j]).id != game_id@,
                None => forall|j: int|
                    0 <= j < self@.len() ==> (#[trigger] self@[j]).id != game_id@,
            },
    {
        let mut i: usize = 0;
        while i < self.games.len()
            invariant
                i <= self.games@.len(),
                forall|j: int| 0 <= j < i ==> (#[trigger] self@[j]).id != game_id@,
            decreases self.games@.len() - i,
        {
            if self.games[i].id == *game_id {
                return Some(i);
            }
            i = i + 1;
        }
        None
    }
}

} // verus!
