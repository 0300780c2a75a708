use cardgame::errors::GameError;
use cardgame::game::MAX_PLAYER;
use cardgame::messages::{
    build_game_message, broadcast_game_message, handle_game_data, join_message, leave_message,
    ActionOutcome, GameEvent, GameEventType, GameRequest, GameRequestAction, MessageType,
};
use cardgame::session::{CreateGameResponse, GameManager, GameState, GameStateStatus};
use cardgame::utils::generate_short_uuid;

fn start_event() -> GameEvent {
    GameEvent { event_type: GameEventType::GameStart, from: None, to: None }
}

fn request(action: GameRequestAction, card: Option<&str>) -> GameRequest {
    GameRequest { action, card: card.map(|c| c.to_string()) }
}

fn lobby_with(names: &[&str]) -> GameState {
    let mut manager = GameManager::new();
    let mut state = manager.create_game();
    for (i, name) in names.iter().enumerate() {
        state.add_participant((i + 1) as u64, name.to_string()).unwrap();
    }
    state
}

#[test]
fn create_game_registers_a_fresh_lobby() {
    let mut manager = GameManager::new();
    let state = manager.create_game();
    assert_eq!(state.status, GameStateStatus::Lobby);
    assert!(state.game.is_none());
    assert!(state.players.is_empty());
    assert!(!state.id.is_empty());

    let index = manager.index_of(&state.id).expect("the new session is registered");
    assert_eq!(manager.games[index].id, state.id);
    assert!(manager.index_of(&"no such id".to_string()).is_none());

    let resp = CreateGameResponse::for_session(&state);
    assert_eq!(resp.game_id, state.id);
    assert_eq!(resp.num_of_players, 0);
}

#[test]
fn generated_session_ids_are_non_empty() {
    for _ in 0..8 {
        assert!(!generate_short_uuid().is_empty());
    }
}

#[test]
fn a_fifth_participant_is_rejected_as_full() {
    let mut state = lobby_with(&["a", "b", "c", "d"]);
    assert_eq!(state.players.len(), MAX_PLAYER);
    assert!(matches!(state.can_join(), Err(GameError::GameFull)));
    assert!(matches!(state.add_participant(9, "e".to_string()), Err(GameError::GameFull)));
    assert_eq!(state.players.len(), MAX_PLAYER);
}

#[test]
fn joining_after_the_match_started_is_rejected() {
    let mut state = lobby_with(&["a", "b"]);
    let outcome = handle_game_data(&mut state, 1, &request(GameRequestAction::StartGame, None));
    assert!(matches!(outcome, ActionOutcome::Broadcast(_)));
    assert!(matches!(state.can_join(), Err(GameError::GameAlreadyStarted)));
    assert!(matches!(state.add_participant(9, "c".to_string()), Err(GameError::GameAlreadyStarted)));
}

#[test]
fn session_error_texts_and_status_codes() {
    assert_eq!(GameError::GameNotFound.message(), "Game not found");
    assert_eq!(GameError::GameNotFound.status_code(), 404);
    assert_eq!(GameError::GameAlreadyStarted.message(), "Game already started");
    assert_eq!(GameError::GameAlreadyStarted.status_code(), 400);
    assert_eq!(GameError::GameFull.message(), "Game is full");
    assert_eq!(GameError::GameFull.status_code(), 400);
    assert_eq!(GameError::NotEnoughPlayers.message(), "Not enough players");
    assert_eq!(GameError::NotEnoughPlayers.status_code(), 500);
    let invalid = GameError::InvalidOperation("draw".to_string());
    assert_eq!(invalid.message(), "Invalid operation: draw");
    assert_eq!(invalid.status_code(), 400);
}

#[test]
fn starting_needs_at_least_two_participants() {
    let mut state = lobby_with(&["only"]);
    let outcome = handle_game_data(&mut state, 1, &request(GameRequestAction::StartGame, None));
    assert!(matches!(outcome, ActionOutcome::Failed));
    assert!(state.game.is_none());
    assert_eq!(state.status, GameStateStatus::Lobby);
}

#[test]
fn starting_twice_fails_the_second_time() {
    let mut state = lobby_with(&["a", "b"]);
    let first = handle_game_data(&mut state, 1, &request(GameRequestAction::StartGame, None));
    assert_eq!(
        first,
        ActionOutcome::Broadcast(GameEvent {
            event_type: GameEventType::GameStart,
            from: None,
            to: None
        })
    );
    assert_eq!(state.status, GameStateStatus::InProgress);
    let game = state.game.as_ref().unwrap();
    assert_eq!(game.players.len(), 2);
    assert_eq!(game.card_left(), 44);

    let second = handle_game_data(&mut state, 1, &request(GameRequestAction::StartGame, None));
    assert!(matches!(second, ActionOutcome::Failed));
}

#[test]
fn actions_before_the_match_starts_fail() {
    let mut state = lobby_with(&["a", "b"]);
    let outcome = handle_game_data(&mut state, 1, &request(GameRequestAction::Draw, None));
    assert!(matches!(outcome, ActionOutcome::Failed));
}

#[test]
fn draw_and_discard_flow_through_the_coordinator() {
    let mut state = lobby_with(&["a", "b"]);
    handle_game_data(&mut state, 1, &request(GameRequestAction::StartGame, None));

    let acting = state.game.as_ref().unwrap().current_player();
    let acting_pos = state.game.as_ref().unwrap().current_turn as u8;

    // someone else's draw fails and changes nothing
    let other = if acting.id == 1 { 2 } else { 1 };
    assert!(matches!(
        handle_game_data(&mut state, other, &request(GameRequestAction::Draw, None)),
        ActionOutcome::Failed
    ));
    assert_eq!(state.game.as_ref().unwrap().card_left(), 44);

    // the acting player's draw is broadcast
    let outcome = handle_game_data(&mut state, acting.id, &request(GameRequestAction::Draw, None));
    assert_eq!(
        outcome,
        ActionOutcome::Broadcast(GameEvent {
            event_type: GameEventType::Draw,
            from: None,
            to: Some(acting_pos),
        })
    );
    assert_eq!(state.game.as_ref().unwrap().card_left(), 43);

    // a malformed card code fails
    assert!(matches!(
        handle_game_data(&mut state, acting.id, &request(GameRequestAction::Discard, Some("zz"))),
        ActionOutcome::Failed
    ));
    // a missing card code fails
    assert!(matches!(
        handle_game_data(&mut state, acting.id, &request(GameRequestAction::Discard, None)),
        ActionOutcome::Failed
    ));

    // discarding a held card passes the turn
    let held = state.game.as_ref().unwrap().current_player().hand[0].to_string();
    let outcome = handle_game_data(
        &mut state,
        acting.id,
        &request(GameRequestAction::Discard, Some(&held)),
    );
    let new_turn = state.game.as_ref().unwrap().current_turn as u8;
    assert_eq!(
        outcome,
        ActionOutcome::Broadcast(GameEvent {
            event_type: GameEventType::Discard,
            from: Some(acting_pos),
            to: Some(new_turn),
        })
    );
    assert_ne!(new_turn, acting_pos);
}

#[test]
fn masked_views_hide_every_other_hand() {
    let mut state = lobby_with(&["alice", "bob"]);
    handle_game_data(&mut state, 1, &request(GameRequestAction::StartGame, None));
    let game = state.game.as_ref().unwrap();

    let msg = build_game_message(1, game, &state, start_event()).expect("seated viewer");
    assert!(matches!(msg.message_type, MessageType::GameEvent));
    assert_eq!(msg.status, "success");
    assert!(msg.message.is_none());

    let data = msg.data.expect("a game event carries data");
    assert_eq!(data.player_id, 1);
    assert_eq!(data.num_of_players, 2);
    assert_eq!(data.card_left, 44);
    assert_eq!(data.current_turn, 0);
    assert_eq!(data.current_phase, "p1");
    assert_eq!(data.players.len(), 2);

    for (seat, entry) in data.players.iter().enumerate() {
        let seated = &game.players[seat];
        assert_eq!(entry.bin.len(), seated.bin.len());
        if seated.id == 1 {
            assert_eq!(entry.name, "alice");
            assert_eq!(entry.hand.len(), 4);
            for (k, code) in entry.hand.iter().enumerate() {
                assert_eq!(code, &seated.hand[k].to_string());
            }
        } else {
            assert_eq!(entry.name, "bob");
            // the other hand is rendered as exactly four blank entries
            assert_eq!(entry.hand, vec!["", "", "", ""]);
        }
    }

    // a viewer without a seat gets nothing
    assert!(build_game_message(99, game, &state, start_event()).is_none());
}

#[test]
fn broadcast_builds_one_message_per_participant() {
    let mut state = lobby_with(&["a", "b", "c"]);
    handle_game_data(&mut state, 1, &request(GameRequestAction::StartGame, None));

    let messages = broadcast_game_message(&state, start_event());
    assert_eq!(messages.len(), 3);
    let mut ids: Vec<u64> = messages.iter().map(|(id, _)| *id).collect();
    ids.sort();
    assert_eq!(ids, vec![1, 2, 3]);
    for (id, msg) in &messages {
        assert_eq!(msg.data.as_ref().unwrap().player_id, *id);
    }
}

#[test]
fn leaving_mid_match_removes_the_seat_and_keeps_the_session_consistent() {
    let mut state = lobby_with(&["a", "b", "c"]);
    handle_game_data(&mut state, 1, &request(GameRequestAction::StartGame, None));
    let leaver = state.game.as_ref().unwrap().current_player();

    state.remove_participant(leaver.id);

    assert_eq!(state.players.len(), 2);
    assert!(state.players.iter().all(|p| p.id != leaver.id));
    let game = state.game.as_ref().unwrap();
    assert_eq!(game.players.len(), 2);
    assert!(game.current_turn < game.players.len());
}

#[test]
fn join_and_leave_notices_carry_the_name() {
    let join = join_message(&"alice".to_string());
    assert!(matches!(join.message_type, MessageType::PlayerJoin));
    assert_eq!(join.status, "success");
    assert!(join.data.is_none());
    assert_eq!(join.message.unwrap(), "alice joined game");

    let leave = leave_message(&"bob".to_string());
    assert!(matches!(leave.message_type, MessageType::PlayerLeft));
    assert_eq!(leave.status, "success");
    assert!(leave.data.is_none());
    assert_eq!(leave.message.unwrap(), "bob left game");
}
