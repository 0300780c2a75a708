//! The card model: suits, ranks, point values and the canonical
//! two-character string form with its decoder.

use vstd::prelude::*;

verus! {

#[derive(Debug, Clone, Copy, PartialEq, Eq, Structural)]
pub enum Suit {
    Hearts,
    Diamonds,
    Clubs,
    Spades,
}

#[derive(Debug, Clone, Copy, PartialEq, Eq, Structural)]
pub enum Rank {
    Ace,
    Two,
    Three,
    Four,
    Five,
    Six,
    Seven,
    Eight,
    Nine,
    Ten,
    Jack,
    Queen,
    King,
}

#[derive(Debug, Clone, Copy, PartialEq, Eq, Structural)]
pub struct Card {
    pub suit: Suit,
    pub rank: Rank,
}

/// Point value of a card: Ace counts 11, numeric ranks their face value,
/// Ten and the court cards 10.
pub open spec fn card_points(c: Card) -> int {
    match c.rank {
        Rank::Ace => 11,
        Rank::Two => 2,
        Rank::Three => 3,
        Rank::Four => 4,
        Rank::Five => 5,
        Rank::Six => 6,
        Rank::Seven => 7,
        Rank::Eight => 8,
        Rank::Nine => 9,
        Rank::Ten => 10,
        Rank::Jack => 10,
        Rank::Queen => 10,
        Rank::King => 10,
    }
}

/// The letter that stands for a suit in the canonical card code.
pub open spec fn suit_char(s: Suit) -> char {
    match s {
        Suit::Hearts => 'H',
        Suit::Diamonds => 'D',
        Suit::Clubs => 'C',
        Suit::Spades => 'S',
    }
}

/// The symbol that stands for a rank in the canonical card code;
/// Ten is written `X` so that every code is exactly two characters.
pub open spec fn rank_char(r: Rank) -> char {
    match r {
        Rank::Ace => 'A',
        Rank::Two => '2',
        Rank::Three => '3',
        Rank::Four => '4',
        Rank::Five => '5',
        Rank::Six => '6',
        Rank::Seven => '7',
        Rank::Eight => '8',
        Rank::Nine => '9',
        Rank::Ten => 'X',
        Rank::Jack => 'J',
        Rank::Queen => 'Q',
        Rank::King => 'K',
    }
}

/// The canonical two-character code of a card: suit letter, then rank symbol.
pub open spec fn encode_spec(c: Card) -> Seq<char> {
    seq![suit_char(c.suit), rank_char(c.rank)]
}

/// The suit a letter stands for, if any.
pub open spec fn char_suit(ch: char) -> Option<Suit> {
    if ch == 'H' {
        Some(Suit::Hearts)
    } else if ch == 'D' {
        Some(Suit::Diamonds)
    } else if ch == 'C' {
        Some(Suit::Clubs)
    } else if ch == 'S' {
        Some(Suit::Spades)
    } else {
        None
    }
}

/// The rank a symbol stands for, if any.
pub open spec fn char_rank(ch: char) -> Option<Rank> {
    if ch == 'A' {
        Some(Rank::Ace)
    } else if ch == '2' {
        Some(Rank::Two)
    } else if ch == '3' {
        Some(Rank::Three)
    } else if ch == '4' {
        Some(Rank::Four)
    } else if ch == '5' {
        Some(Rank::Five)
    } else if ch == '6' {
        Some(Rank::Six)
    } else if ch == '7' {
        Some(Rank::Seven)
    } else if ch == '8' {
        Some(Rank::Eight)
    } else if ch == '9' {
        Some(Rank::Nine)
    } else if ch == 'X' {
        Some(Rank::Ten)
    } else if ch == 'J' {
        Some(Rank::Jack)
    } else if ch == 'Q' {
        Some(Rank::Queen)
    } else if ch == 'K' {
        Some(Rank::King)
    } else {
        None
    }
}

/// What decoding a string yields: a card exactly when the string is two
/// characters long, the first a suit letter and the second a rank symbol.
pub open spec fn decode_spec(s: Seq<char>) -> Option<Card> {
    if s.len() != 2 {
        None
    } else {
        match (char_suit(s[0]), char_rank(s[1])) {
            (Some(suit), Some(rank)) => Some(Card { suit, rank }),
            _ => None,
        }
    }
}

impl Card {
    /// Point value of this card.
    pub fn points(&self) -> (r: u16)
        ensures
            r as int == card_points(*self),
    {
        match self.rank {
            Rank::Ace => 11,
            Rank::Two => 2,
            Rank::Three => 3,
            Rank::Four => 4,
            Rank::Five => 5,
            Rank::Six => 6,
            Rank::Seven => 7,
            Rank::Eight => 8,
            Rank::Nine => 9,
            Rank::Ten => 10,
            Rank::Jack => 10,
            Rank::Queen => 10,
            Rank::King => 10,
        }
    }

    /// Canonical two-character form of this card.
    pub fn to_string(&self) -> (r: String)
        ensures
            r@ == encode_spec(*self),
    {
        let suit: &str = match self.suit {
            Suit::Hearts => "H",
            Suit::Diamonds => "D",
            Suit::Clubs => "C",
            Suit::Spades => "S",
        };

        let rank: &str = match self.rank {
            Rank::Ace => "A",
            Rank::Two => "2",
            Rank::Three => "3",
            Rank::Four => "4",
            Rank::Five => "5",
            Rank::Six => "6",
            Rank::Seven => "7",
            Rank::Eight => "8",
            Rank::Nine => "9",
            Rank::Ten => "X",
            Rank::Jack => "J",
            Rank::Queen => "Q",
            Rank::King => "K",
        };

        proof {
            reveal_strlit("H");
            reveal_strlit("D");
            reveal_strlit("C");
            reveal_strlit("S");
            reveal_strlit("A");
            reveal_strlit("2");
            reveal_strlit("3");
            reveal_strlit("4");
            reveal_strlit("5");
            reveal_strlit("6");
            reveal_strlit("7");
            reveal_strlit("8");
            reveal_strlit("9");
            reveal_strlit("X");
            reveal_strlit("J");
            reveal_strlit("Q");
            reveal_strlit("K");
        }
        assert(suit@ =~= seq![suit_char(self.suit)]);
        assert(rank@ =~= seq![rank_char(self.rank)]);

        let code = String::from_str(suit).concat(rank);
        assert(code@ =~= encode_spec(*self));
        code
    }

    /// Decode a two-character card code; any other input yields `None`.
    pub fn from_string(input: &str) -> (r: Option<Card>)
        ensures
            r == decode_spec(input@),
    {
        if input.unicode_len() != 2 {
            return None;
        }

        let suit_ch = input.get_char(0);
        let rank_ch = input.get_char(1);

        let suit = if suit_ch == 'H' {
            Suit::Hearts
        } else if suit_ch == 'D' {
            Suit::Diamonds
        } else if suit_ch == 'C' {
            Suit::Clubs
        } else if suit_ch == 'S' {
            Suit::Spades
        } else {
            return None;
        };

        let rank = if rank_ch == 'A' {
            Rank::Ace
        } else if rank_ch == '2' {
            Rank::Two
        } else if rank_ch == '3' {
            Rank::Three
        } else if rank_ch == '4' {
            Rank::Four
        } else if rank_ch == '5' {
            Rank::Five
        } else if rank_ch == '6' {
            Rank::Six
        } else if rank_ch == '7' {
            Rank::Seven
        } else if rank_ch == '8' {
            Rank::Eight
        } else if rank_ch == '9' {
            Rank::Nine
        } else if rank_ch == 'X' {
            Rank::Ten
        } else if rank_ch == 'J' {
            Rank::Jack
        } else if rank_ch == 'Q' {
            Rank::Queen
        } else if rank_ch == 'K' {
            Rank::King
        } else {
            return None;
        };

        Some(Card { suit, rank })
    }
}

/// Encoding and decoding are mutually inverse: every card survives the round
/// trip through its two-character code, and every string that decodes at all
/// decodes to the unique card whose code it is.
pub proof fn lemma_card_code_round_trip(c: Card)
    ensures
        decode_spec(encode_spec(c)) == Some(c),
{
}

/// Decoding succeeds only on the canonical codes: a decoded card re-encodes
/// to the very same string, and a string of any length other than two never
/// decodes.
pub proof fn lemma_decode_exact(s: Seq<char>)
    ensures
        decode_spec(s) matches Some(c) ==> encode_spec(c) =~= s,
        s.len() != 2 ==> decode_spec(s) is None,
{
}

} // verus!
