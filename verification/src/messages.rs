//! The broadcast layer: inbound actions, outbound messages, and the
//! per-participant masked rendering of shared match state.

use vstd::prelude::*;

use crate::card::{encode_spec, Card};
use crate::game::{seat_of, Game, GameView, GamePhase, PlayerView};
use crate::session::{GameState, GameStateView, ParticipantView};

verus! {

/// The actions a connected participant may request.
#[derive(Debug, Clone, Copy, PartialEq, Eq, Structural)]
pub enum GameRequestAction {
    StartGame,
    Draw,
    TakeBin,
    Discard,
    Close,
}

/// One inbound request: an action, with the card code that `Discard` and
/// `Close` name.
#[derive(Debug)]
pub struct GameRequest {
    pub action: GameRequestAction,
    pub card: Option<String>,
}

/// What kind of outbound message this is.
#[derive(Debug, Clone, Copy, PartialEq, Eq, Structural)]
pub enum MessageType {
    PlayerJoin,
    PlayerLeft,
    GameEvent,
}

/// What just happened, for the receiving client's animation.
#[derive(Debug, Clone, Copy, PartialEq)]
pub enum GameEventType {
    GameStart,
    Draw,
    TakeBin,
    Discard,
    Close,
}

/// A structured event: its kind and the seats a card moved between.
#[derive(Debug, Clone, Copy, PartialEq)]
pub struct GameEvent {
    pub event_type: GameEventType,
    pub from: Option<u8>,
    pub to: Option<u8>,
}

/// One player's entry as a particular participant sees it: the name, the
/// hand — in clear only for the viewer's own entry — and the public bin.
#[derive(Debug)]
pub struct PlayerData {
    pub name: String,
    pub hand: Vec<String>,
    pub bin: Vec<String>,
}

/// Mathematical model of a rendered player entry.
#[verifier::ext_equal]
pub ghost struct PlayerDataView {
    pub name: Seq<char>,
    pub hand: Seq<Seq<char>>,
    pub bin: Seq<Seq<char>>,
}

impl View for PlayerData {
    type V = PlayerDataView;

    open spec fn view(&self) -> PlayerDataView {
        PlayerDataView {
            name: self.name@,
            hand: self.hand@.map_values(|s: String| s@),
            bin: self.bin@.map_values(|s: String| s@),
        }
    }
}

/// A masked snapshot of the whole match for one participant.
#[derive(Debug)]
pub struct GameData {
    pub player_id: u64,
    pub player_pos: u8,
    pub num_of_players: u8,
    pub card_left: u8,
    pub current_turn: u8,
    pub current_phase: String,
    pub event: GameEvent,
    pub players: Vec<PlayerData>,
}

/// Mathematical model of a masked snapshot.
#[verifier::ext_equal]
pub ghost struct GameDataView {
    pub player_id: u64,
    pub player_pos: u8,
    pub num_of_players: u8,
    pub card_left: u8,
    pub current_turn: u8,
    pub current_phase: Seq<char>,
    pub event: GameEvent,
    pub players: Seq<PlayerDataView>,
}

impl View for GameData {
    type V = GameDataView;

    open spec fn view(&self) -> GameDataView {
        GameDataView {
            player_id: self.player_id,
            player_pos: self.player_pos,
            num_of_players: self.num_of_players,
            card_left: self.card_left,
            current_turn: self.current_turn,
            current_phase: self.current_phase@,
            event: self.event,
            players: self.players@.map_values(|p: PlayerData| p@),
        }
    }
}

/// One outbound message.
#[derive(Debug)]
pub struct GameMessage {
    pub message_type: MessageType,
    pub status: String,
    pub data: Option<GameData>,
    pub message: Option<String>,
}

/// Mathematical model of an outbound message.
#[verifier::ext_equal]
pub ghost struct GameMessageView {
    pub message_type: MessageType,
    pub status: Seq<char>,
    pub data: Option<GameDataView>,
    pub message: Option<Seq<char>>,
}

impl View for GameMessage {
    type V = GameMessageView;

    open spec fn view(&self) -> GameMessageView {
        GameMessageView {
            message_type: self.message_type,
            status: self.status@,
            data: match self.data {
                Some(d) => Some(d@),
                None => None,
            },
            message: match self.message {
                Some(m) => Some(m@),
                None => None,
            },
        }
    }
}

/// The canonical codes of a run of cards, in order.
pub open spec fn encoded_cards(cards: Seq<Card>) -> Seq<Seq<char>> {
    cards.map_values(|c: Card| encode_spec(c))
}

/// Four blank entries: what a hand looks like to everyone but its owner,
/// whatever it actually holds.
pub open spec fn blank_hand() -> Seq<Seq<char>> {
    Seq::new(4, |i: int| Seq::<char>::empty())
}

/// How a player's hand is rendered for a viewer: in clear for its owner,
/// as blank placeholders for anyone else.
pub open spec fn masked_hand(viewer: u64, p: PlayerView) -> Seq<Seq<char>> {
    if p.id == viewer {
        encoded_cards(p.hand)
    } else {
        blank_hand()
    }
}

/// The wire label of each phase.
pub open spec fn phase_label(p: GamePhase) -> Seq<char> {
    match p {
        GamePhase::GameEnded => "ended"@,
        GamePhase::P1 => "p1"@,
        GamePhase::P2 => "p2"@,
    }
}

/// The display name registered for an id; empty when nobody has it.
pub open spec fn name_of(players: Seq<ParticipantView>, id: u64) -> Seq<char>
    decreases players.len(),
{
    if players.len() == 0 {
        Seq::empty()
    } else if players.first().id == id {
        players.first().name
    } else {
        name_of(players.drop_first(), id)
    }
}

/// What a correct masked snapshot for `viewer` says of session `s` holding
/// match `g` after `event`: every counter reflects the match, the viewer's
/// own hand is in clear, every other hand is four blank entries whatever it
/// holds, and all bins are public.
pub open spec fn game_data_ok(
    s: GameStateView,
    g: GameView,
    event: GameEvent,
    viewer: u64,
    d: GameDataView,
) -> bool {
    &&& d.player_id == viewer
    &&& seat_of(g.players, viewer) == Some(d.player_pos as int)
    &&& d.num_of_players as int == s.players.len()
    &&& d.card_left as int == g.deck.len()
    &&& d.current_turn as int == g.current_turn
    &&& d.current_phase == phase_label(g.phase)
    &&& d.event == event
    &&& d.players.len() == g.players.len()
    &&& forall|i: int|
        0 <= i < g.players.len() ==> {
            &&& (#[trigger] d.players[i]).hand == masked_hand(viewer, g.players[i])
            &&& d.players[i].bin == encoded_cards(g.players[i].bin)
            &&& d.players[i].name == name_of(s.players, g.players[i].id)
        }
}

/// What a correct game-event message for `viewer` looks like.
pub open spec fn game_message_ok(
    s: GameStateView,
    g: GameView,
    event: GameEvent,
    viewer: u64,
    m: GameMessageView,
) -> bool {
    &&& m.message_type is GameEvent
    &&& m.status == "success"@
    &&& m.message is None
    &&& m.data matches Some(d) && game_data_ok(s, g, event, viewer, d)
}

/// The codes of a run of cards, as strings.
fn encode_hand(cards: &Vec<Card>) -> (r: Vec<String>)
    ensures
        r@.map_values(|s: String| s@) == encoded_cards(cards@),
{
    let mut r: Vec<String> = Vec::new();
    let mut i: usize = 0;
    while i < cards.len()
        invariant
            i <= cards@.len(),
            r@.len() == i,
            forall|j: int| 0 <= j < i ==> (#[trigger] r@[j])@ == encode_spec(cards@[j]),
        decreases cards@.len() - i,
    {
        r.push(cards[i].to_string());
        i = i + 1;
    }
    proof {
        assert(r@.map_values(|s: String| s@) =~= encoded_cards(cards@));
    }
    r
}

/// Four blank entries.
fn blank_hand_strings() -> (r: Vec<String>)
    ensures
        r@.map_values(|s: String| s@) == blank_hand(),
{
    let mut r: Vec<String> = Vec::new();
    r.push(String::new());
    r.push(String::new());
    r.push(String::new());
    r.push(String::new());
    proof {
        assert(r@.map_values(|s: String| s@) =~= blank_hand());
    }
    r
}

/// The display name registered for an id, or an empty string.
fn participant_name(state: &GameState, id: u64) -> (r: String)
    ensures
        r@ == name_of(state@.players, id),
{
    let mut i: usize = 0;
    proof {
        assert(state@.players.skip(0) =~= state@.players);
    }
    while i < state.players.len()
        invariant
            i <= state.players@.len(),
            name_of(state@.players, id) == name_of(state@.players.skip(i as int), id),
        decreases state.players@.len() - i,
    {
        proof {
            assert(state@.players.skip(i as int).first() == state@.players[i as int]);
            assert(state@.players.skip(i as int).drop_first() =~= state@.players.skip(i + 1));
        }
        if state.players[i].id == id {
            return state.players[i].name.clone();
        }
        i = i + 1;
    }
    proof {
        assert(state@.players.skip(state@.players.len() as int) =~= Seq::<ParticipantView>::empty());
    }
    String::new()
}

/// The wire label of the current phase.
fn phase_string(p: GamePhase) -> (r: String)
    ensures
        r@ == phase_label(p),
{
    match p {
        GamePhase::GameEnded => String::from_str("ended"),
        GamePhase::P1 => String::from_str("p1"),
        GamePhase::P2 => String::from_str("p2"),
    }
}

/// Build the masked game-event message one participant is sent: their own
/// hand in clear, every other hand blanked, all bins public. Yields nothing
/// for a viewer without a seat in the match.
pub fn build_game_message(
    viewer: u64,
    game: &Game,
    state: &GameState,
    event: GameEvent,
) -> (r: Option<GameMessage>)
    requires
        game@.wf(),
        state@.players.len() <= crate::game::MAX_PLAYER,
    ensures
        match r {
            Some(m) => game_message_ok(state@, game@, event, viewer, m@) && seat_of(
                game@.players,
                viewer,
            ) is Some,
            None => seat_of(game@.players, viewer) is None,
        },
{
    proof {
        crate::game::lemma_seat_of(game@.players, viewer);
    }
    let player_pos = match game.player_pos(viewer) {
        Some(i) => i,
        None => {
            return None;
        },
    };

    let mut players_data: Vec<PlayerData> = Vec::new();
    let mut i: usize = 0;
    while i < game.players.len()
        invariant
            i <= game.players@.len(),
            game@.wf(),
            players_data@.len() == i,
            forall|j: int|
                0 <= j < i ==> {
                    &&& (#[trigger] players_data@[j])@.hand == masked_hand(
                        viewer,
                        game@.players[j],
                    )
                    &&& players_data@[j]@.bin == encoded_cards(game@.players[j].bin)
                    &&& players_data@[j]@.name == name_of(state@.players, game@.players[j].id)
                },
        decreases game.players@.len() - i,
    {
        let p = &game.players[i];
        let hand = if p.id == viewer {
            encode_hand(&p.hand)
        } else {
            blank_hand_strings()
        };
        let bin = encode_hand(&p.bin);
        let name = participant_name(state, p.id);
        players_data.push(PlayerData { name, hand, bin });
        i = i + 1;
    }

    let data = GameData {
        player_id: viewer,
        player_pos: player_pos as u8,
        num_of_players: state.players.len() as u8,
        card_left: game.card_left(),
        current_turn: game.current_turn as u8,
        current_phase: phase_string(game.phase),
        event,
        players: players_data,
    };
    let msg = GameMessage {
        message_type: MessageType::GameEvent,
        status: String::from_str("success"),
        data: Some(data),
        message: None,
    };
    proof {
        assert(msg@.data matches Some(d) && d.players =~= players_data@.map_values(
            |p: PlayerData| p@,
        ));
    }
    Some(msg)
}

/// The public notice that a participant has joined.
pub fn join_message(name: &String) -> (r: GameMessage)
    ensures
        r@.message_type is PlayerJoin,
        r@.status == "success"@,
        r@.data is None,
        r@.message matches Some(m) && m == name@ + " joined game"@,
{
    GameMessage {
        message_type: MessageType::PlayerJoin,
        status: String::from_str("success"),
        data: None,
        message: Some(name.clone().concat(" joined game")),
    }
}

/// The public notice that a participant has left.
pub fn leave_message(name: &String) -> (r: GameMessage)
    ensures
        r@.message_type is PlayerLeft,
        r@.status == "success"@,
        r@.data is None,
        r@.message matches Some(m) && m == name@ + " left game"@,
{
    GameMessage {
        message_type: MessageType::PlayerLeft,
        status: String::from_str("success"),
        data: None,
        message: Some(name.clone().concat(" left game")),
    }
}

/// Build the per-participant masked messages for one match event: one
/// message per connected participant who holds a seat, each reflecting the
/// same post-mutation snapshot.
pub fn broadcast_game_message(state: &GameState, event: GameEvent) -> (r: Vec<(u64, GameMessage)>)
    requires
        state@.wf(),
        state@.game is Some,
    ensures
        state@.game matches Some(g) ==> {
            &&& forall|k: int|
                0 <= k < r@.len() ==> game_message_ok(
                    state@,
                    g,
                    event,
                    (#[trigger] r@[k]).0,
                    r@[k].1@,
                ) && seat_of(g.players, r@[k].0) is Some
            &&& forall|i: int|
                0 <= i < state@.players.len() && seat_of(
                    g.players,
                    (#[trigger] state@.players[i]).id,
                ) is Some ==> exists|k: int|
                    0 <= k < r@.len() && (#[trigger] r@[k]).0 == state@.players[i].id
        },
{
    let game = state.game.as_ref().unwrap();
    let mut out: Vec<(u64, GameMessage)> = Vec::new();
    let mut i: usize = 0;
    while i < state.players.len()
        invariant
            i <= state.players@.len(),
            state@.wf(),
            state@.game == Some(game@),
            game@.wf(),
            forall|k: int|
                0 <= k < out@.len() ==> game_message_ok(
                    state@,
                    game@,
                    event,
                    (#[trigger] out@[k]).0,
                    out@[k].1@,
                ) && seat_of(game@.players, out@[k].0) is Some,
            forall|j: int|
                0 <= j < i && seat_of(game@.players, (#[trigger] state@.players[j]).id) is Some
                    ==> exists|k: int|
                    0 <= k < out@.len() && (#[trigger] out@[k]).0 == state@.players[j].id,
        decreases state.players@.len() - i,
    {
        let pid = state.players[i].id;
        let ghost out0 = out@;
        match build_game_message(pid, game, state, event) {
            Some(m) => {
                out.push((pid, m));
                proof {
                    assert(out@.last().0 == pid);
                    assert(forall|k: int| 0 <= k < out0.len() ==> out@[k] == out0[k]);
                }
            },
            None => {},
        }
        i = i + 1;
    }
    out
}

/// What the coordinator decides for one inbound request: broadcast the
/// masked post-mutation state under an event, or tell only the requester
/// that the action failed.
#[derive(Debug, Clone, Copy, PartialEq)]
pub enum ActionOutcome {
    Broadcast(GameEvent),
    Failed,
}

/// The card a request names, if its code decodes.
pub open spec fn request_card(req: GameRequest) -> Option<Card> {
    match req.card {
        Some(cs) => crate::card::decode_spec(cs@),
        None => None,
    }
}

/// Interpret one inbound request against a session: start the match, or
/// apply the named match operation for the requesting participant. A
/// request that cannot apply — no match yet, a match already running, too
/// few participants, an unseated requester, a malformed card code, or a
/// move the engine rejects — changes nothing and fails only towards the
/// requester.
pub fn handle_game_data(state: &mut GameState, player_id: u64, data: &GameRequest) -> (r:
    ActionOutcome)
    requires
        old(state)@.wf(),
    ensures
        final(state)@.wf(),
        final(state)@.id == old(state)@.id,
        final(state)@.players == old(state)@.players,
        r is Failed ==> final(state)@ == old(state)@,
        match data.action {
            GameRequestAction::StartGame => {
                if old(state)@.game is None && old(state)@.players.len() >= crate::game::MIN_PLAYER {
                    &&& r == ActionOutcome::Broadcast(
                        GameEvent { event_type: GameEventType::GameStart, from: None, to: None },
                    )
                    &&& final(state)@.status is InProgress
                    &&& final(state)@.game matches Some(g) && crate::game::fresh_match_ok(
                        g,
                        old(state)@.players.map_values(|p: ParticipantView| p.id),
                    )
                } else {
                    r is Failed
                }
            },
            GameRequestAction::Draw => match old(state)@.game {
                Some(g) => {
                    if g.draw_enabled(player_id) {
                        &&& final(state)@.game == Some(g.draw_step())
                        &&& final(state)@.status == old(state)@.status
                        &&& seat_of(g.players, player_id) matches Some(pos) && r
                            == ActionOutcome::Broadcast(
                            GameEvent {
                                event_type: GameEventType::Draw,
                                from: None,
                                to: Some(pos as u8),
                            },
                        )
                    } else {
                        r is Failed
                    }
                },
                None => r is Failed,
            },
            GameRequestAction::TakeBin => match old(state)@.game {
                Some(g) => {
                    if g.take_bin_enabled(player_id) {
                        &&& final(state)@.game == Some(g.take_bin_step())
                        &&& final(state)@.status == old(state)@.status
                        &&& seat_of(g.players, player_id) matches Some(pos) && r
                            == ActionOutcome::Broadcast(
                            GameEvent {
                                event_type: GameEventType::TakeBin,
                                from: Some(pos as u8),
                                to: Some(pos as u8),
                            },
                        )
                    } else {
                        r is Failed
                    }
                },
                None => r is Failed,
            },
            GameRequestAction::Discard => match old(state)@.game {
                Some(g) => match request_card(*data) {
                    Some(card) => {
                        if g.discard_enabled(player_id, card) {
                            &&& final(state)@.game == Some(g.discard_step(card))
                            &&& final(state)@.status == old(state)@.status
                            &&& seat_of(g.players, player_id) matches Some(pos) && r
                                == ActionOutcome::Broadcast(
                                GameEvent {
                                    event_type: GameEventType::Discard,
                                    from: Some(pos as u8),
                                    to: Some(g.discard_step(card).current_turn as u8),
                                },
                            )
                        } else {
                            r is Failed
                        }
                    },
                    None => r is Failed,
                },
                None => r is Failed,
            },
            GameRequestAction::Close => match old(state)@.game {
                Some(g) => match request_card(*data) {
                    Some(card) => {
                        if g.close_enabled(player_id, card) {
                            &&& final(state)@.game == Some(g.close_step(card))
                            &&& final(state)@.status == old(state)@.status
                            &&& seat_of(g.players, player_id) matches Some(pos) && r
                                == ActionOutcome::Broadcast(
                                GameEvent {
                                    event_type: GameEventType::Close,
                                    from: Some(pos as u8),
                                    to: Some(g.close_step(card).current_turn as u8),
                                },
                            )
                        } else {
                            r is Failed
                        }
                    },
                    None => r is Failed,
                },
                None => r is Failed,
            },
        },
{
    if data.action == GameRequestAction::StartGame {
        match &state.game {
            Some(_) => {
                return ActionOutcome::Failed;
            },
            None => {},
        }
        if state.players.len() < crate::game::MIN_PLAYER {
            return ActionOutcome::Failed;
        }
        let ids = state.participant_ids();
        proof {
            assert(ids@ =~= state@.players.map_values(|p: ParticipantView| p.id));
        }
        let game = crate::game::Game::new(ids);
        state.game = Some(game);
        state.status = crate::session::GameStateStatus::InProgress;
        return ActionOutcome::Broadcast(
            GameEvent { event_type: GameEventType::GameStart, from: None, to: None },
        );
    }

    let ghost g0 = old(state)@;
    match &mut state.game {
        None => ActionOutcome::Failed,
        Some(game) => {
            proof {
                crate::game::lemma_seat_of(game@.players, player_id);
            }
            let player_pos = match game.player_pos(player_id) {
                Some(i) => i,
                None => {
                    return ActionOutcome::Failed;
                },
            };
            match data.action {
                GameRequestAction::StartGame => ActionOutcome::Failed,
                GameRequestAction::Draw => match game.draw(player_id) {
                    Ok(_) => ActionOutcome::Broadcast(
                        GameEvent {
                            event_type: GameEventType::Draw,
                            from: None,
                            to: Some(player_pos as u8),
                        },
                    ),
                    Err(_) => ActionOutcome::Failed,
                },
                GameRequestAction::TakeBin => match game.take_bin(player_id) {
                    Ok(_) => ActionOutcome::Broadcast(
                        GameEvent {
                            event_type: GameEventType::TakeBin,
                            from: Some(player_pos as u8),
                            to: Some(player_pos as u8),
                        },
                    ),
                    Err(_) => ActionOutcome::Failed,
                },
                GameRequestAction::Discard => {
                    let card_data = match &data.card {
                        Some(c) => c,
                        None => {
                            return ActionOutcome::Failed;
                        },
                    };
                    let card = match Card::from_string(card_data.as_str()) {
                        Some(c) => c,
                        None => {
                            return ActionOutcome::Failed;
                        },
                    };
                    match game.discard(player_id, card) {
                        Ok(_) => {
                            let to = game.current_turn as u8;
                            ActionOutcome::Broadcast(
                                GameEvent {
                                    event_type: GameEventType::Discard,
                                    from: Some(player_pos as u8),
                                    to: Some(to),
                                },
                            )
                        },
                        Err(_) => ActionOutcome::Failed,
                    }
                },
                GameRequestAction::Close => {
                    let card_data = match &data.card {
                        Some(c) => c,
                        None => {
                            return ActionOutcome::Failed;
                        },
                    };
                    let card = match Card::from_string(card_data.as_str()) {
                        Some(c) => c,
                        None => {
                            return ActionOutcome::Failed;
                        },
                    };
                    match game.close(player_id, card) {
                        Ok(_) => {
                            let to = game.current_turn as u8;
                            ActionOutcome::Broadcast(
                                GameEvent {
                                    event_type: GameEventType::Close,
                                    from: Some(player_pos as u8),
                                    to: Some(to),
                                },
                            )
                        },
                        Err(_) => ActionOutcome::Failed,
                    }
                },
            }
        },
    }
}

} // verus!
