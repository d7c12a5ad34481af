//! The cards, jokers and hand categories that a round is made of.

use vstd::prelude::*;

verus! {

/// The thirteen ranks, from the lowest to the highest.
#[derive(Clone, Copy, Debug, PartialEq, Eq, Structural)]
pub enum Rank {
    Two,
    Three,
    Four,
    Five,
    Six,
    Seven,
    Eight,
    Nine,
    Ten,
    Jack,
    Queen,
    King,
    Ace,
}

/// The four suits.
#[derive(Clone, Copy, Debug, PartialEq, Eq, Structural)]
pub enum Suit {
    Spades,
    Hearts,
    Clubs,
    Diamonds,
}

/// What a card may be enhanced with: at most one of these.
#[derive(Clone, Copy, Debug, PartialEq, Eq, Structural)]
pub enum Enhancement {
    Bonus,
    Mult,
    Wild,
    Glass,
    Steel,
}

/// The edition that a card or a joker may carry: at most one of these.
#[derive(Clone, Copy, Debug, PartialEq, Eq, Structural)]
pub enum Edition {
    Foil,
    Holographic,
    Polychrome,
}

/// A playing card. Scoring reads a card and never changes it.
#[derive(Clone, Copy, Debug, PartialEq, Eq)]
pub struct Card {
    pub rank: Rank,
    pub suit: Suit,
    pub enhancement: Option<Enhancement>,
    pub edition: Option<Edition>,
}

/// The jokers that can be owned. Those from `FourFingers` on change
/// nothing in a score.
#[derive(Clone, Copy, Debug, PartialEq, Eq, Structural)]
pub enum Joker {
    Joker,
    JollyJoker,
    ZanyJoker,
    MadJoker,
    CrazyJoker,
    DrollJoker,
    SlyJoker,
    WilyJoker,
    CleverJoker,
    DeviousJoker,
    CraftyJoker,
    AbstractJoker,
    RaisedFist,
    Blackboard,
    Baron,
    GreedyJoker,
    LustyJoker,
    WrathfulJoker,
    GluttonousJoker,
    Fibonacci,
    ScaryFace,
    EvenSteven,
    OddTodd,
    Photograph,
    SmileyFace,
    FlowerPot,
    FourFingers,
    Shortcut,
    Mime,
    Pareidolia,
    Splash,
    SockAndBuskin,
    SmearedJoker,
    Blueprint,
}

/// An owned joker, with the edition it may carry.
#[derive(Clone, Copy, Debug, PartialEq, Eq)]
pub struct JokerCard {
    pub joker: Joker,
    pub edition: Option<Edition>,
}

/// The hand categories, from the lowest to the highest.
#[derive(Clone, Copy, Debug, PartialEq, Eq, Structural)]
pub enum PokerHand {
    HighCard,
    Pair,
    TwoPair,
    ThreeOfAKind,
    Straight,
    Flush,
    FullHouse,
    FourOfAKind,
    StraightFlush,
    FiveOfAKind,
    FlushHouse,
    FlushFive,
}

impl Rank {
    /// The number of a rank: 2 for a two up to 14 for an ace. It orders the
    /// ranks, finds straights, and is what a scored card adds to the chips.
    pub open spec fn value(self) -> int {
        match self {
            Rank::Two => 2,
            Rank::Three => 3,
            Rank::Four => 4,
            Rank::Five => 5,
            Rank::Six => 6,
            Rank::Seven => 7,
            Rank::Eight => 8,
            Rank::Nine => 9,
            Rank::Ten => 10,
            Rank::Jack => 11,
            Rank::Queen => 12,
            Rank::King => 13,
            Rank::Ace => 14,
        }
    }

    /// Jack, queen and king are the face cards.
    pub open spec fn face(self) -> bool {
        self == Rank::Jack || self == Rank::Queen || self == Rank::King
    }

    /// Whether the rank is a jack, a queen or a king.
    pub fn is_face(&self) -> (b: bool)
        ensures
            b == self.face(),
    {
        match self {
            Rank::Jack | Rank::Queen | Rank::King => true,
            _ => false,
        }
    }
}

impl Card {
    /// A card of the given rank and suit, enhanced or not.
    pub fn new(
        rank: Rank,
        suit: Suit,
        enhancement: Option<Enhancement>,
        edition: Option<Edition>,
    ) -> (card: Card)
        ensures
            card.rank == rank,
            card.suit == suit,
            card.enhancement == enhancement,
            card.edition == edition,
    {
        Card { rank, suit, enhancement, edition }
    }

    /// A wild card stands for every suit.
    pub open spec fn wild(self) -> bool {
        self.enhancement == Some(Enhancement::Wild)
    }

    /// Whether the card carries the Wild enhancement.
    pub fn is_wild(&self) -> (b: bool)
        ensures
            b == self.wild(),
    {
        match self.enhancement {
            Some(Enhancement::Wild) => true,
            _ => false,
        }
    }
}

impl JokerCard {
    /// A joker, with an edition or without.
    pub fn new(joker: Joker, edition: Option<Edition>) -> (card: JokerCard)
        ensures
            card.joker == joker,
            card.edition == edition,
    {
        JokerCard { joker, edition }
    }
}

impl PokerHand {
    /// The chips and the multiplier that a hand of each category starts from.
    pub open spec fn base(self) -> (int, int) {
        match self {
            PokerHand::HighCard => (5, 1),
            PokerHand::Pair => (10, 2),
            PokerHand::TwoPair => (20, 2),
            PokerHand::ThreeOfAKind => (30, 3),
            PokerHand::Straight => (30, 4),
            PokerHand::Flush => (35, 4),
            PokerHand::FullHouse => (40, 4),
            PokerHand::FourOfAKind => (60, 7),
            PokerHand::StraightFlush => (100, 8),
            PokerHand::FiveOfAKind => (120, 12),
            PokerHand::FlushHouse => (140, 14),
            PokerHand::FlushFive => (160, 16),
        }
    }

    /// The base chips and the base multiplier of the category.
    pub fn hand_value(&self) -> (v: (u128, u128))
        ensures
            v.0 == self.base().0,
            v.1 == self.base().1,
    {
        match self {
            PokerHand::HighCard => (5, 1),
            PokerHand::Pair => (10, 2),
            PokerHand::TwoPair => (20, 2),
            PokerHand::ThreeOfAKind => (30, 3),
            PokerHand::Straight => (30, 4),
            PokerHand::Flush => (35, 4),
            PokerHand::FullHouse => (40, 4),
            PokerHand::FourOfAKind => (60, 7),
            PokerHand::StraightFlush => (100, 8),
            PokerHand::FiveOfAKind => (120, 12),
            PokerHand::FlushHouse => (140, 14),
            PokerHand::FlushFive => (160, 16),
        }
    }

    /// The place of a category in the order of precedence: 0 for the lowest.
    pub open spec fn strength(self) -> int {
        match self {
            PokerHand::HighCard => 0,
            PokerHand::Pair => 1,
            PokerHand::TwoPair => 2,
            PokerHand::ThreeOfAKind => 3,
            PokerHand::Straight => 4,
            PokerHand::Flush => 5,
            PokerHand::FullHouse => 6,
            PokerHand::FourOfAKind => 7,
            PokerHand::StraightFlush => 8,
            PokerHand::FiveOfAKind => 9,
            PokerHand::FlushHouse => 10,
            PokerHand::FlushFive => 11,
        }
    }
}

} // verus!
