use cardgame::card::Card;
use cardgame::game::{Game, GameError, GamePhase, GameStatus, Player};

fn card(code: &str) -> Card {
    Card::from_string(code).unwrap()
}

#[test]
fn test_game_flow() {
    let player1_id: u64 = 1;
    let player2_id: u64 = 2;
    let mut game = Game::new(vec![player1_id.clone(), player2_id.clone()]);
    let mut i = 0;
    loop {
        let current_player = game.current_player();
        let res_p1 = match i {
            i if i % 2 == 1 && current_player.bin.len() > 0 => game.take_bin(current_player.id),
            i if i % 2 == 0 => game.draw(current_player.id),
            _ => game.draw(current_player.id),
        };

        let _p1 = match res_p1 {
            Ok(p1) => p1,
            Err(e) => panic!("Error while drawing player: {:?}", e),
        };

        let card_to_discard = current_player.hand[3].clone();
        let res_p2 = game.discard(current_player.id, card_to_discard);

        let p2 = match res_p2 {
            Ok(p2) => p2,
            Err(e) => panic!("Error while discard card: {:?}", e),
        };

        if p2.status == Option::from(GameStatus::Ended) {
            break;
        }
        i += 1;
    }
}

#[test]
fn score_is_deterministic_on_the_worked_example() {
    // hand {H-Ace(11), H-2(2), H-3(3), D-4(4)}: suit sums Hearts=16,
    // Diamonds=4; M=11; score = 2*11 - 20 = 2
    let player = Player {
        id: 7,
        hand: vec![card("HA"), card("H2"), card("H3"), card("D4")],
        bin: vec![],
    };
    assert_eq!(player.score(), 2);
    assert_eq!(player.score(), 2);
}

#[test]
fn score_can_be_negative() {
    // max 5, total 2+3+4+5 = 14: score = 10 - 14 = -4
    let player = Player {
        id: 7,
        hand: vec![card("D2"), card("C3"), card("S4"), card("H5")],
        bin: vec![],
    };
    assert_eq!(player.score(), -4);
}

fn game_with_hands(hands: Vec<Vec<Card>>, phase: GamePhase) -> Game {
    let players = hands
        .into_iter()
        .enumerate()
        .map(|(i, hand)| Player { id: (i + 1) as u64, hand, bin: vec![] })
        .collect();
    Game { id: 99, players, deck: vec![], current_turn: 0, phase }
}

#[test]
fn winner_is_the_unique_top_scorer() {
    // scores 2 and -4
    let game = game_with_hands(
        vec![
            vec![card("HA"), card("H2"), card("H3"), card("D4")],
            vec![card("D2"), card("C3"), card("S4"), card("H5")],
        ],
        GamePhase::GameEnded,
    );
    let w = game.winner().expect("unique top scorer wins");
    assert_eq!(w.id, 1);
}

#[test]
fn winner_is_none_when_the_top_score_is_shared() {
    // both hands score 2
    let game = game_with_hands(
        vec![
            vec![card("HA"), card("H2"), card("H3"), card("D4")],
            vec![card("SA"), card("S2"), card("S3"), card("C4")],
        ],
        GamePhase::GameEnded,
    );
    assert!(game.winner().is_none());
}

#[test]
fn winner_handles_three_players_with_a_shared_top() {
    // scores 2, 2, -4: the top is shared, nobody wins
    let game = game_with_hands(
        vec![
            vec![card("HA"), card("H2"), card("H3"), card("D4")],
            vec![card("SA"), card("S2"), card("S3"), card("C4")],
            vec![card("D2"), card("C3"), card("S4"), card("H5")],
        ],
        GamePhase::GameEnded,
    );
    assert!(game.winner().is_none());
}

#[test]
fn winner_is_none_before_the_match_ends() {
    let game = game_with_hands(
        vec![
            vec![card("HA"), card("H2"), card("H3"), card("D4")],
            vec![card("D2"), card("C3"), card("S4"), card("H5")],
        ],
        GamePhase::P1,
    );
    assert!(game.winner().is_none());
}

#[test]
fn draw_then_discard_restores_the_acting_hand_to_four() {
    let mut game = Game::new(vec![1, 2]);
    let acting = game.current_player();
    assert_eq!(acting.hand.len(), 4);

    game.draw(acting.id).unwrap();
    assert_eq!(game.current_player().hand.len(), 5);

    let discarded = game.current_player().hand[0].clone();
    game.discard(acting.id, discarded.clone()).unwrap();

    // the acting player's hand is back to four cards
    assert_eq!(game.players[0].hand.len(), 4);
    // the discarded card was dealt straight into the next player's hand
    assert_eq!(game.players[1].hand.len(), 5);
    assert!(game.players[1].hand.contains(&discarded));
    assert_eq!(game.current_turn, 1);
    assert_eq!(game.phase, GamePhase::P1);
}

#[test]
fn repeated_rounds_empty_the_deck_and_end_the_match() {
    let mut game = Game::new(vec![1, 2]);
    assert_eq!(game.card_left(), 44);

    let mut rounds = 0;
    while game.phase != GamePhase::GameEnded {
        let acting = game.current_player();
        game.draw(acting.id).unwrap();
        let discarded = game.current_player().hand[0].clone();
        game.discard(acting.id, discarded).unwrap();
        rounds += 1;
        assert!(rounds <= 44, "the match must end within deck-size rounds");
    }

    assert_eq!(rounds, 44);
    assert_eq!(game.card_left(), 0);
    assert_eq!(game.phase, GamePhase::GameEnded);
    // a winner may or may not exist; computing one must be possible
    let _ = game.winner();
}

#[test]
fn all_52_cards_stay_in_play_after_dealing() {
    let game = Game::new(vec![1, 2, 3]);
    let mut codes: Vec<String> = Vec::new();
    for c in &game.deck {
        codes.push(c.to_string());
    }
    for p in &game.players {
        assert_eq!(p.hand.len(), 4);
        assert!(p.bin.is_empty());
        for c in &p.hand {
            codes.push(c.to_string());
        }
    }
    assert_eq!(codes.len(), 52);
    codes.sort();
    codes.dedup();
    assert_eq!(codes.len(), 52, "every dealt card is distinct");
}

#[test]
fn draw_out_of_turn_is_an_invalid_move() {
    let mut game = Game::new(vec![1, 2]);
    let other = if game.current_player().id == 1 { 2 } else { 1 };
    assert!(matches!(game.draw(other), Err(GameError::InvalidMove)));
    assert!(matches!(game.take_bin(other), Err(GameError::InvalidMove)));
}

#[test]
fn take_bin_with_an_empty_bin_is_an_invalid_move() {
    let mut game = Game::new(vec![1, 2]);
    let acting = game.current_player();
    assert!(acting.bin.is_empty());
    assert!(matches!(game.take_bin(acting.id), Err(GameError::InvalidMove)));
}

#[test]
fn discarding_a_card_not_in_hand_is_card_not_found() {
    let mut game = Game::new(vec![1, 2]);
    let acting = game.current_player();
    game.draw(acting.id).unwrap();

    let hand = game.current_player().hand;
    let absent = game
        .deck
        .iter()
        .find(|c| !hand.contains(c))
        .expect("deck still holds cards outside the hand")
        .clone();
    assert!(matches!(game.discard(acting.id, absent), Err(GameError::CardNotFound)));
    // nothing changed: the hand still holds five cards
    assert_eq!(game.current_player().hand.len(), 5);
}

#[test]
fn discard_before_drawing_is_an_invalid_move() {
    let mut game = Game::new(vec![1, 2]);
    let acting = game.current_player();
    let held = acting.hand[0].clone();
    assert!(matches!(game.discard(acting.id, held), Err(GameError::InvalidMove)));
}

#[test]
fn close_after_drawing_is_an_invalid_move() {
    let mut game = Game::new(vec![1, 2]);
    let acting = game.current_player();
    game.draw(acting.id).unwrap();
    let held = game.current_player().hand[0].clone();
    assert!(matches!(game.close(acting.id, held), Err(GameError::InvalidMove)));
}

#[test]
fn close_before_drawing_ends_the_match() {
    let mut game = Game::new(vec![1, 2]);
    let acting = game.current_player();
    let held = acting.hand[0].clone();
    let resp = game.close(acting.id, held).unwrap();
    assert_eq!(resp.status, Some(GameStatus::Ended));
    assert_eq!(game.phase, GamePhase::GameEnded);
    assert_eq!(resp.next_turn as usize, game.current_turn);
    // the match stays ended: no further move succeeds
    let next = game.current_player();
    assert!(matches!(game.draw(next.id), Err(GameError::InvalidMove)));
}

#[test]
fn score_of_an_unknown_player_is_invalid_player() {
    let game = Game::new(vec![1, 2]);
    assert!(matches!(game.score(42), Err(GameError::InvalidPlayer)));
    assert!(game.score(1).is_ok());
}

#[test]
fn removing_the_turn_holder_advances_the_turn_exactly_once() {
    let mut game = Game::new(vec![1, 2, 3]);
    let leaver = game.current_player();
    assert_eq!(game.current_turn, 0);
    let next_id = game.players[1].id;

    game.remove_player(leaver.id).unwrap();

    assert_eq!(game.players.len(), 2);
    // the seat after the leaver's now holds the turn
    assert_eq!(game.players[game.current_turn].id, next_id);
    // the phase is back at the start of a turn, or the match ended
    assert!(game.phase == GamePhase::P1 || game.phase == GamePhase::GameEnded);
    // the forced discard dealt the leaver's first card onward
    assert_eq!(game.players[game.current_turn].hand.len(), 5);
}

#[test]
fn removing_a_waiting_player_keeps_the_turn_holder() {
    let mut game = Game::new(vec![1, 2, 3]);
    let holder = game.current_player();
    let waiting = game.players[2].id;

    game.remove_player(waiting).unwrap();

    assert_eq!(game.players.len(), 2);
    assert_eq!(game.current_player().id, holder.id);
    assert_eq!(game.phase, GamePhase::P1);
}

#[test]
fn removing_an_unknown_player_changes_nothing() {
    let mut game = Game::new(vec![1, 2]);
    let before_turn = game.current_turn;
    game.remove_player(99).unwrap();
    assert_eq!(game.players.len(), 2);
    assert_eq!(game.current_turn, before_turn);
}
