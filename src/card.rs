//! The fixed vocabulary of the game: ranks, suits, enhancements, editions,
//! cards, jokers and poker hands, with their queries.
use vstd::prelude::*;

verus! {

#[derive(Clone, Copy, Debug, PartialEq, Eq, Structural, Hash)]
pub enum Rank {
    Two,
    Three,
    Four,
    Five,
    Six,
    Seven,
    Eight,
    Nine,
    Ten,
    Jack,
    Queen,
    King,
    Ace,
}

#[derive(Clone, Copy, Debug, PartialEq, Eq, Structural, Hash)]
pub enum Suit {
    Spades,
    Hearts,
    Clubs,
    Diamonds,
}

#[derive(Clone, Copy, Debug, PartialEq, Eq, Structural, Hash)]
pub enum SuitColor {
    Black,
    Red,
}

#[derive(Clone, Copy, Debug, PartialEq, Eq, Structural, Hash)]
pub enum Enhancement {
    Bonus,
    Mult,
    Wild,
    Glass,
    Steel,
}

#[derive(Clone, Copy, Debug, PartialEq, Eq, Structural, Hash)]
pub enum Edition {
    Foil,
    Holographic,
    Polychrome,
}

/// One playing card. Cards are told apart by their position in the sequence
/// that holds them, never by their value: two cards of equal value are still
/// two cards.
#[derive(Clone, Copy, Debug, PartialEq, Eq, Structural, Hash)]
pub struct Card {
    pub rank: Rank,
    pub suit: Suit,
    pub enhancement: Option<Enhancement>,
    pub edition: Option<Edition>,
}

#[derive(Clone, Copy, Debug, PartialEq, Eq, Structural, Hash)]
pub enum Joker {
    Joker,
    JollyJoker,
    ZanyJoker,
    MadJoker,
    CrazyJoker,
    DrollJoker,
    SlyJoker,
    WilyJoker,
    CleverJoker,
    DeviousJoker,
    CraftyJoker,
    AbstractJoker,
    RaisedFist,
    Blackboard,
    Baron,
    GreedyJoker,
    LustyJoker,
    WrathfulJoker,
    GluttonousJoker,
    Fibonacci,
    ScaryFace,
    EvenSteven,
    OddTodd,
    Photograph,
    SmileyFace,
    FlowerPot,
    FourFingers,
    Shortcut,
    Mime,
    Pareidolia,
    Splash,
    SockAndBuskin,
    SmearedJoker,
    Blueprint,
}

#[derive(Clone, Copy, Debug, PartialEq, Eq, Structural, Hash)]
pub struct JokerCard {
    pub joker: Joker,
    pub edition: Option<Edition>,
}

#[derive(Clone, Copy, Debug, PartialEq, Eq, Structural, Hash)]
pub enum PokerHand {
    HighCard,
    Pair,
    TwoPair,
    ThreeOfAKind,
    Straight,
    Flush,
    FullHouse,
    FourOfAKind,
    StraightFlush,
    FiveOfAKind,
    FlushHouse,
    FlushFive,
}

/// The input of one scoring: the cards played, the cards kept in hand and
/// the jokers owned, each in order.
pub struct Round {
    pub cards_played: Vec<Card>,
    pub cards_held_in_hand: Vec<Card>,
    pub jokers: Vec<JokerCard>,
}

impl Card {
    pub fn new(rank: Rank, suit: Suit, enhancement: Option<Enhancement>, edition: Option<Edition>) -> (r: Card)
        ensures
            r == (Card { rank, suit, enhancement, edition }),
    {
        Card { rank, suit, enhancement, edition }
    }

    pub open spec fn is_wild(self) -> bool {
        self.enhancement == Some(Enhancement::Wild)
    }

    pub fn wild(&self) -> (r: bool)
        ensures
            r == self.is_wild(),
    {
        match self.enhancement {
            Some(Enhancement::Wild) => true,
            _ => false,
        }
    }
}

impl JokerCard {
    pub fn new(joker: Joker, edition: Option<Edition>) -> (r: JokerCard)
        ensures
            r == (JokerCard { joker, edition }),
    {
        JokerCard { joker, edition }
    }
}

impl Rank {
    /// The chips a scored card of this rank is worth.
    pub open spec fn value(self) -> nat {
        match self {
            Rank::Two => 2,
            Rank::Three => 3,
            Rank::Four => 4,
            Rank::Five => 5,
            Rank::Six => 6,
            Rank::Seven => 7,
            Rank::Eight => 8,
            Rank::Nine => 9,
            Rank::Ace => 11,
            _ => 10,
        }
    }

    pub fn rank_value(&self) -> (r: u64)
        ensures
            r == self.value(),
    {
        match self {
            Rank::Two => 2,
            Rank::Three => 3,
            Rank::Four => 4,
            Rank::Five => 5,
            Rank::Six => 6,
            Rank::Seven => 7,
            Rank::Eight => 8,
            Rank::Nine => 9,
            Rank::Ace => 11,
            _ => 10,
        }
    }

    /// Jack, Queen and King are the face ranks; Ace is not one.
    pub open spec fn face(self) -> bool {
        self == Rank::Jack || self == Rank::Queen || self == Rank::King
    }

    pub fn is_face(&self) -> (r: bool)
        ensures
            r == self.face(),
    {
        match self {
            Rank::Jack | Rank::Queen | Rank::King => true,
            _ => false,
        }
    }

    /// The place of the rank in straights: Two is 2, King is 13, and Ace is
    /// 14 when high or 1 when low.
    pub open spec fn order(self, low_ace: bool) -> int {
        match self {
            Rank::Two => 2,
            Rank::Three => 3,
            Rank::Four => 4,
            Rank::Five => 5,
            Rank::Six => 6,
            Rank::Seven => 7,
            Rank::Eight => 8,
            Rank::Nine => 9,
            Rank::Ten => 10,
            Rank::Jack => 11,
            Rank::Queen => 12,
            Rank::King => 13,
            Rank::Ace => if low_ace { 1 } else { 14 },
        }
    }

    /// The rank whose high order is `k + 2`, for `k` in `0..13`.
    pub open spec fn from_index(k: int) -> Rank {
        if k <= 0 {
            Rank::Two
        } else if k == 1 {
            Rank::Three
        } else if k == 2 {
            Rank::Four
        } else if k == 3 {
            Rank::Five
        } else if k == 4 {
            Rank::Six
        } else if k == 5 {
            Rank::Seven
        } else if k == 6 {
            Rank::Eight
        } else if k == 7 {
            Rank::Nine
        } else if k == 8 {
            Rank::Ten
        } else if k == 9 {
            Rank::Jack
        } else if k == 10 {
            Rank::Queen
        } else if k == 11 {
            Rank::King
        } else {
            Rank::Ace
        }
    }

    pub open spec fn index(self) -> int {
        self.order(false) - 2
    }

    pub fn from_order_index(k: usize) -> (r: Rank)
        requires
            k < 13,
        ensures
            r == Rank::from_index(k as int),
            r.index() == k,
    {
        match k {
            0 => Rank::Two,
            1 => Rank::Three,
            2 => Rank::Four,
            3 => Rank::Five,
            4 => Rank::Six,
            5 => Rank::Seven,
            6 => Rank::Eight,
            7 => Rank::Nine,
            8 => Rank::Ten,
            9 => Rank::Jack,
            10 => Rank::Queen,
            11 => Rank::King,
            _ => Rank::Ace,
        }
    }
}

pub proof fn lemma_rank_index(r: Rank)
    ensures
        0 <= r.index() < 13,
        Rank::from_index(r.index()) == r,
{
}

pub fn rank_to_order(rank: &Rank, is_low_ace: bool) -> (r: usize)
    ensures
        r == rank.order(is_low_ace),
{
    match rank {
        Rank::Two => 2,
        Rank::Three => 3,
        Rank::Four => 4,
        Rank::Five => 5,
        Rank::Six => 6,
        Rank::Seven => 7,
        Rank::Eight => 8,
        Rank::Nine => 9,
        Rank::Ten => 10,
        Rank::Jack => 11,
        Rank::Queen => 12,
        Rank::King => 13,
        Rank::Ace => if is_low_ace { 1 } else { 14 },
    }
}

impl Suit {
    pub open spec fn spec_color(self) -> SuitColor {
        match self {
            Suit::Spades | Suit::Clubs => SuitColor::Black,
            Suit::Hearts | Suit::Diamonds => SuitColor::Red,
        }
    }

    pub fn color(&self) -> (r: SuitColor)
        ensures
            r == self.spec_color(),
    {
        match self {
            Suit::Spades | Suit::Clubs => SuitColor::Black,
            Suit::Hearts | Suit::Diamonds => SuitColor::Red,
        }
    }

    /// Spades, Hearts, Clubs, Diamonds are `0..4` in that order.
    pub open spec fn index(self) -> int {
        match self {
            Suit::Spades => 0,
            Suit::Hearts => 1,
            Suit::Clubs => 2,
            Suit::Diamonds => 3,
        }
    }

    pub open spec fn from_index(k: int) -> Suit {
        if k <= 0 {
            Suit::Spades
        } else if k == 1 {
            Suit::Hearts
        } else if k == 2 {
            Suit::Clubs
        } else {
            Suit::Diamonds
        }
    }

    pub fn suit_index(&self) -> (r: usize)
        ensures
            r == self.index(),
            r < 4,
    {
        match self {
            Suit::Spades => 0,
            Suit::Hearts => 1,
            Suit::Clubs => 2,
            Suit::Diamonds => 3,
        }
    }

    pub fn from_suit_index(k: usize) -> (r: Suit)
        requires
            k < 4,
        ensures
            r == Suit::from_index(k as int),
            r.index() == k,
    {
        match k {
            0 => Suit::Spades,
            1 => Suit::Hearts,
            2 => Suit::Clubs,
            _ => Suit::Diamonds,
        }
    }
}

impl PokerHand {
    /// The base (chips, mult) of each hand.
    pub open spec fn base(self) -> (nat, nat) {
        match self {
            PokerHand::HighCard => (5, 1),
            PokerHand::Pair => (10, 2),
            PokerHand::TwoPair => (20, 2),
            PokerHand::ThreeOfAKind => (30, 3),
            PokerHand::Straight => (30, 4),
            PokerHand::Flush => (35, 4),
            PokerHand::FullHouse => (40, 4),
            PokerHand::FourOfAKind => (60, 7),
            PokerHand::StraightFlush => (100, 8),
            PokerHand::FiveOfAKind => (120, 12),
            PokerHand::FlushHouse => (140, 14),
            PokerHand::FlushFive => (160, 16),
        }
    }
}

pub fn get_base_score(hand: PokerHand) -> (r: (u64, u64))
    ensures
        r.0 == hand.base().0,
        r.1 == hand.base().1,
{
    match hand {
        PokerHand::HighCard => (5, 1),
        PokerHand::Pair => (10, 2),
        PokerHand::TwoPair => (20, 2),
        PokerHand::ThreeOfAKind => (30, 3),
        PokerHand::Straight => (30, 4),
        PokerHand::Flush => (35, 4),
        PokerHand::FullHouse => (40, 4),
        PokerHand::FourOfAKind => (60, 7),
        PokerHand::StraightFlush => (100, 8),
        PokerHand::FiveOfAKind => (120, 12),
        PokerHand::FlushHouse => (140, 14),
        PokerHand::FlushFive => (160, 16),
    }
}

} // verus!
