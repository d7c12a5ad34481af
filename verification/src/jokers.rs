//! Which of the owned jokers the shape of the played hand activates.

use crate::cards::{Card, Joker, JokerCard, PokerHand};
use crate::pokerhand::{
    copy_cards, flush, group_sizes_are, groups_of_size, HandValue,
};
use vstd::prelude::*;

verus! {

/// A classified round with its active jokers picked out.
#[derive(Debug)]
pub struct HandJoker {
    pub hand: PokerHand,
    pub cards_impl: Vec<Card>,
    pub cards_played: Vec<Card>,
    pub cards_hold_in_hand: Vec<Card>,
    pub work_joker_cards_in_hand: Vec<JokerCard>,
    pub total_joker_number: usize,
}

/// The size of the largest rank group, as far as five.
pub open spec fn largest_group(cards: Seq<Card>) -> nat {
    if groups_of_size(cards, 5) >= 1 {
        5
    } else if groups_of_size(cards, 4) >= 1 {
        4
    } else if groups_of_size(cards, 3) >= 1 {
        3
    } else if groups_of_size(cards, 2) >= 1 {
        2
    } else if groups_of_size(cards, 1) >= 1 {
        1
    } else {
        0
    }
}

/// The group sizes are 2, 2 or 1, 2, 2.
pub open spec fn two_pairs(cards: Seq<Card>) -> bool {
    group_sizes_are(cards, 0, 2, 0, 0, 0) || group_sizes_are(cards, 1, 2, 0, 0, 0)
}

/// Whether a joker takes part in scoring a hand of category `hand` made
/// of the cards `played`. A joker whose effect depends on single cards or
/// on the held cards always takes part: its own condition is looked at
/// when the score is accumulated.
pub open spec fn active(joker: Joker, hand: PokerHand, played: Seq<Card>) -> bool {
    match joker {
        Joker::JollyJoker | Joker::SlyJoker => 2 <= largest_group(played) <= 5,
        Joker::ZanyJoker | Joker::WilyJoker => 3 <= largest_group(played) <= 5,
        Joker::MadJoker | Joker::CleverJoker => two_pairs(played),
        Joker::CrazyJoker | Joker::DeviousJoker => hand == PokerHand::Straight || hand
            == PokerHand::StraightFlush,
        Joker::DrollJoker | Joker::CraftyJoker => flush(played),
        _ => true,
    }
}

/// The active ones among the first `n` jokers, in their order.
pub open spec fn active_upto(
    jokers: Seq<JokerCard>,
    hand: PokerHand,
    played: Seq<Card>,
    n: int,
) -> Seq<JokerCard>
    decreases n,
{
    if n <= 0 {
        Seq::empty()
    } else if active(jokers[n - 1].joker, hand, played) {
        active_upto(jokers, hand, played, n - 1).push(jokers[n - 1])
    } else {
        active_upto(jokers, hand, played, n - 1)
    }
}

/// The active jokers of a round, in the order in which they are owned.
pub open spec fn active_jokers(jokers: Seq<JokerCard>, hand: PokerHand, played: Seq<Card>) -> Seq<
    JokerCard,
> {
    active_upto(jokers, hand, played, jokers.len() as int)
}

impl HandJoker {
    /// Picks the active jokers of a classified round and counts all the
    /// owned ones.
    pub fn analyze(handvalue: &HandValue) -> (r: Self)
        ensures
            r.hand == handvalue.hand,
            r.cards_impl@ == handvalue.cards_impl@,
            r.cards_played@ == handvalue.cards_played@,
            r.cards_hold_in_hand@ == handvalue.cards_hold_in_hand@,
            r.work_joker_cards_in_hand@ == active_jokers(
                handvalue.joker_cards@,
                handvalue.hand,
                handvalue.cards_played@,
            ),
            r.total_joker_number == handvalue.joker_cards.len(),
    {
        let data = HandJoker {
            hand: handvalue.hand,
            cards_impl: copy_cards(handvalue.cards_impl.as_slice()),
            cards_played: copy_cards(handvalue.cards_played.as_slice()),
            cards_hold_in_hand: copy_cards(handvalue.cards_hold_in_hand.as_slice()),
            work_joker_cards_in_hand: Vec::new(),
            total_joker_number: handvalue.joker_cards.len(),
        };
        let mut work_joker: Vec<JokerCard> = Vec::new();
        let mut i: usize = 0;
        while i < handvalue.joker_cards.len()
            invariant
                i <= handvalue.joker_cards.len(),
                data.hand == handvalue.hand,
                data.cards_played@ == handvalue.cards_played@,
                work_joker@ == active_upto(
                    handvalue.joker_cards@,
                    handvalue.hand,
                    handvalue.cards_played@,
                    i as int,
                ),
            decreases handvalue.joker_cards.len() - i,
        {
            let card = handvalue.joker_cards[i];
            if Self::is_joker_work(&card.joker, &data) {
                work_joker.push(card);
            }
            i += 1;
        }
        HandJoker {
            hand: data.hand,
            cards_impl: data.cards_impl,
            cards_played: data.cards_played,
            cards_hold_in_hand: data.cards_hold_in_hand,
            work_joker_cards_in_hand: work_joker,
            total_joker_number: data.total_joker_number,
        }
    }

    /// Whether the hand in `data` activates `joker`.
    pub fn is_joker_work(joker: &Joker, data: &Self) -> (b: bool)
        ensures
            b == active(*joker, data.hand, data.cards_played@),
    {
        match joker {
            Joker::JollyJoker | Joker::SlyJoker => {
                let s = HandValue::group_sizes(data.cards_played.as_slice());
                s.fives >= 1 || s.fours >= 1 || s.threes >= 1 || s.twos >= 1
            },
            Joker::ZanyJoker | Joker::WilyJoker => {
                let s = HandValue::group_sizes(data.cards_played.as_slice());
                s.fives >= 1 || s.fours >= 1 || s.threes >= 1
            },
            Joker::MadJoker | Joker::CleverJoker => {
                let s = HandValue::group_sizes(data.cards_played.as_slice());
                (s.ones == 0 || s.ones == 1) && s.twos == 2 && s.threes == 0 && s.fours == 0
                    && s.fives == 0
            },
            Joker::CrazyJoker | Joker::DeviousJoker => {
                data.hand == PokerHand::Straight || data.hand == PokerHand::StraightFlush
            },
            Joker::DrollJoker | Joker::CraftyJoker => HandValue::is_flush(
                data.cards_played.as_slice(),
            ),
            _ => true,
        }
    }
}

} // verus!
