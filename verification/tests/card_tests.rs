use cardgame::card::{Card, Rank, Suit};

#[test]
fn test_card() {
    let card = match Card::from_string("H2") {
        None => {
            panic!("Unable initiate card")
        },
        Some(card) => card,
    };

    assert_eq!(card.to_string(), "H2");
    assert_eq!(card.points(), 2);
}

fn all_suits() -> Vec<Suit> {
    vec![Suit::Hearts, Suit::Diamonds, Suit::Clubs, Suit::Spades]
}

fn all_ranks() -> Vec<Rank> {
    vec![
        Rank::Ace,
        Rank::Two,
        Rank::Three,
        Rank::Four,
        Rank::Five,
        Rank::Six,
        Rank::Seven,
        Rank::Eight,
        Rank::Nine,
        Rank::Ten,
        Rank::Jack,
        Rank::Queen,
        Rank::King,
    ]
}

#[test]
fn round_trip_all_52_cards() {
    let mut seen = Vec::new();
    for suit in all_suits() {
        for rank in all_ranks() {
            let card = Card { suit, rank };
            let code = card.to_string();
            assert_eq!(code.len(), 2);
            let back = Card::from_string(&code).expect("canonical code must decode");
            assert_eq!(back, card);
            assert!(!seen.contains(&code), "codes must be distinct");
            seen.push(code);
        }
    }
    assert_eq!(seen.len(), 52);
}

#[test]
fn decode_rejects_wrong_length() {
    assert_eq!(Card::from_string(""), None);
    assert_eq!(Card::from_string("H"), None);
    assert_eq!(Card::from_string("H23"), None);
    assert_eq!(Card::from_string("HAA"), None);
}

#[test]
fn decode_rejects_unknown_symbols() {
    // unknown suit letter
    assert_eq!(Card::from_string("X2"), None);
    assert_eq!(Card::from_string("h2"), None);
    // unknown rank symbol: Ten is written X, never 1 or 0 or T
    assert_eq!(Card::from_string("H1"), None);
    assert_eq!(Card::from_string("H0"), None);
    assert_eq!(Card::from_string("HT"), None);
    assert_eq!(Card::from_string("Hx"), None);
    // two-character strings built from valid symbols in the wrong order
    assert_eq!(Card::from_string("2H"), None);
    assert_eq!(Card::from_string("AH"), None);
}

#[test]
fn decode_rejects_all_two_char_strings_outside_the_52() {
    let mut valid = 0;
    for a in 0u8..=127 {
        for b in 0u8..=127 {
            let s = format!("{}{}", a as char, b as char);
            match Card::from_string(&s) {
                Some(card) => {
                    valid += 1;
                    assert_eq!(card.to_string(), s);
                },
                None => {},
            }
        }
    }
    assert_eq!(valid, 52);
}

#[test]
fn points_table() {
    assert_eq!(Card::from_string("HA").unwrap().points(), 11);
    assert_eq!(Card::from_string("D5").unwrap().points(), 5);
    assert_eq!(Card::from_string("C9").unwrap().points(), 9);
    assert_eq!(Card::from_string("SX").unwrap().points(), 10);
    assert_eq!(Card::from_string("HJ").unwrap().points(), 10);
    assert_eq!(Card::from_string("DQ").unwrap().points(), 10);
    assert_eq!(Card::from_string("CK").unwrap().points(), 10);
}
