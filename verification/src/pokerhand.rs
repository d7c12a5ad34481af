//! Classification of the played cards: which poker hand they form and
//! which of them are scored.

use crate::cards::{Card, JokerCard, PokerHand, Rank, Suit};
use crate::hand_laws::lemma_scoring_cards_are_played;
use vstd::prelude::*;

verus! {

/// A classified round: the category, the cards that are scored, and the
/// rest of the round carried along unchanged.
#[derive(Debug)]
pub struct HandValue {
    pub hand: PokerHand,
    pub cards_impl: Vec<Card>,
    pub cards_played: Vec<Card>,
    pub cards_hold_in_hand: Vec<Card>,
    pub joker_cards: Vec<JokerCard>,
}

/// How many rank groups there are of each size from one to five.
#[derive(Clone, Copy, Debug)]
pub struct GroupSizes {
    pub ones: usize,
    pub twos: usize,
    pub threes: usize,
    pub fours: usize,
    pub fives: usize,
}

/// The cards of rank number `v` among the first `n` cards, in their order.
pub open spec fn rank_group_upto(cards: Seq<Card>, v: int, n: int) -> Seq<Card>
    decreases n,
{
    if n <= 0 {
        Seq::empty()
    } else if cards[n - 1].rank.value() == v {
        rank_group_upto(cards, v, n - 1).push(cards[n - 1])
    } else {
        rank_group_upto(cards, v, n - 1)
    }
}

/// The rank group of `v`: all cards of that rank number, in their order.
pub open spec fn rank_group(cards: Seq<Card>, v: int) -> Seq<Card> {
    rank_group_upto(cards, v, cards.len() as int)
}

/// The number of cards of rank number `v`.
pub open spec fn rank_count(cards: Seq<Card>, v: int) -> nat {
    rank_group(cards, v).len()
}

/// The number of rank numbers from 2 to `v` whose group has `k` cards.
pub open spec fn groups_upto(cards: Seq<Card>, k: nat, v: int) -> nat
    decreases v,
{
    if v < 2 {
        0
    } else {
        groups_upto(cards, k, v - 1) + if rank_count(cards, v) == k {
            1nat
        } else {
            0nat
        }
    }
}

/// The number of rank groups of exactly `k` cards.
pub open spec fn groups_of_size(cards: Seq<Card>, k: nat) -> nat {
    groups_upto(cards, k, 14)
}

/// The sorted list of group sizes, given as the number of groups of each
/// size: the list 2, 3 is no ones, one two, one three and nothing larger.
pub open spec fn group_sizes_are(
    cards: Seq<Card>,
    ones: nat,
    twos: nat,
    threes: nat,
    fours: nat,
    fives: nat,
) -> bool {
    &&& groups_of_size(cards, 1) == ones
    &&& groups_of_size(cards, 2) == twos
    &&& groups_of_size(cards, 3) == threes
    &&& groups_of_size(cards, 4) == fours
    &&& groups_of_size(cards, 5) == fives
}

/// One pair and one triple.
pub open spec fn pair_and_triple(cards: Seq<Card>) -> bool {
    group_sizes_are(cards, 0, 1, 1, 0, 0)
}

/// Some rank's group holds every card.
pub open spec fn one_rank(cards: Seq<Card>) -> bool {
    groups_of_size(cards, cards.len()) >= 1
}

/// Every card that is not wild has suit `s`.
pub open spec fn suit_fits(cards: Seq<Card>, s: Suit) -> bool {
    forall|i: int| 0 <= i < cards.len() ==> (#[trigger] cards[i]).wild() || cards[i].suit == s
}

/// The cards that are not wild share one suit. Cards that are all wild
/// are a flush.
pub open spec fn flush(cards: Seq<Card>) -> bool {
    suit_fits(cards, Suit::Spades) || suit_fits(cards, Suit::Hearts) || suit_fits(
        cards,
        Suit::Clubs,
    ) || suit_fits(cards, Suit::Diamonds)
}

/// The five rank numbers from `lo` on all occur.
pub open spec fn run_from(cards: Seq<Card>, lo: int) -> bool {
    &&& rank_count(cards, lo) >= 1
    &&& rank_count(cards, lo + 1) >= 1
    &&& rank_count(cards, lo + 2) >= 1
    &&& rank_count(cards, lo + 3) >= 1
    &&& rank_count(cards, lo + 4) >= 1
}

/// Ace, two, three, four and five all occur: the ace counts low.
pub open spec fn wheel(cards: Seq<Card>) -> bool {
    &&& rank_count(cards, 14) >= 1
    &&& rank_count(cards, 2) >= 1
    &&& rank_count(cards, 3) >= 1
    &&& rank_count(cards, 4) >= 1
    &&& rank_count(cards, 5) >= 1
}

/// Five cards of five consecutive ranks, or the wheel.
pub open spec fn straight(cards: Seq<Card>) -> bool {
    cards.len() == 5 && (wheel(cards) || exists|lo: int|
        2 <= lo <= 10 && #[trigger] run_from(cards, lo))
}

/// The condition of a category by itself, whatever higher category the
/// cards may also form.
pub open spec fn holds(cards: Seq<Card>, hand: PokerHand) -> bool {
    match hand {
        PokerHand::FlushFive => flush(cards) && one_rank(cards),
        PokerHand::FlushHouse => flush(cards) && pair_and_triple(cards),
        PokerHand::FiveOfAKind => cards.len() == 5 && one_rank(cards),
        PokerHand::StraightFlush => flush(cards) && straight(cards),
        PokerHand::FourOfAKind => groups_of_size(cards, 4) >= 1,
        PokerHand::FullHouse => cards.len() == 5 && pair_and_triple(cards),
        PokerHand::Flush => flush(cards),
        PokerHand::Straight => straight(cards),
        PokerHand::ThreeOfAKind => groups_of_size(cards, 3) >= 1 && groups_of_size(cards, 4) == 0
            && groups_of_size(cards, 5) == 0,
        PokerHand::TwoPair => groups_of_size(cards, 2) == 2,
        PokerHand::Pair => groups_of_size(cards, 2) == 1,
        PokerHand::HighCard => true,
    }
}

/// The category of the played cards: the highest one whose condition holds.
pub open spec fn hand_of(cards: Seq<Card>) -> PokerHand {
    if holds(cards, PokerHand::FlushFive) {
        PokerHand::FlushFive
    } else if holds(cards, PokerHand::FlushHouse) {
        PokerHand::FlushHouse
    } else if holds(cards, PokerHand::FiveOfAKind) {
        PokerHand::FiveOfAKind
    } else if holds(cards, PokerHand::StraightFlush) {
        PokerHand::StraightFlush
    } else if holds(cards, PokerHand::FourOfAKind) {
        PokerHand::FourOfAKind
    } else if holds(cards, PokerHand::FullHouse) {
        PokerHand::FullHouse
    } else if holds(cards, PokerHand::Flush) {
        PokerHand::Flush
    } else if holds(cards, PokerHand::Straight) {
        PokerHand::Straight
    } else if holds(cards, PokerHand::ThreeOfAKind) {
        PokerHand::ThreeOfAKind
    } else if holds(cards, PokerHand::TwoPair) {
        PokerHand::TwoPair
    } else if holds(cards, PokerHand::Pair) {
        PokerHand::Pair
    } else {
        PokerHand::HighCard
    }
}

/// Those of the first `n` cards whose rank group has `k` cards, in their
/// order.
pub open spec fn members_upto(cards: Seq<Card>, k: nat, n: int) -> Seq<Card>
    decreases n,
{
    if n <= 0 {
        Seq::empty()
    } else if rank_count(cards, cards[n - 1].rank.value()) == k {
        members_upto(cards, k, n - 1).push(cards[n - 1])
    } else {
        members_upto(cards, k, n - 1)
    }
}

/// The cards whose rank group has `k` cards.
pub open spec fn members(cards: Seq<Card>, k: nat) -> Seq<Card> {
    members_upto(cards, k, cards.len() as int)
}

/// The position of the highest rank among the first `n` cards: the first
/// one where several are equal.
pub open spec fn highest_upto(cards: Seq<Card>, n: int) -> int
    decreases n,
{
    if n <= 1 {
        0
    } else {
        let best = highest_upto(cards, n - 1);
        if cards[n - 1].rank.value() > cards[best].rank.value() {
            n - 1
        } else {
            best
        }
    }
}

/// The position of the highest-ranked card.
pub open spec fn highest(cards: Seq<Card>) -> int {
    highest_upto(cards, cards.len() as int)
}

/// The cards that are scored when the cards count as `hand`.
pub open spec fn subset(cards: Seq<Card>, hand: PokerHand) -> Seq<Card> {
    match hand {
        PokerHand::FourOfAKind => members(cards, 4),
        PokerHand::ThreeOfAKind => members(cards, 3),
        PokerHand::TwoPair => members(cards, 2),
        PokerHand::Pair => members(cards, 2),
        PokerHand::HighCard => seq![cards[highest(cards)]],
        _ => cards,
    }
}

/// The scored cards of the played cards.
pub open spec fn scoring_cards(cards: Seq<Card>) -> Seq<Card> {
    subset(cards, hand_of(cards))
}

pub(crate) fn copy_cards(cards: &[Card]) -> (out: Vec<Card>)
    ensures
        out@ == cards@,
{
    let mut out: Vec<Card> = Vec::new();
    let mut i: usize = 0;
    while i < cards.len()
        invariant
            i <= cards.len(),
            out@ == cards@.take(i as int),
        decreases cards.len() - i,
    {
        out.push(cards[i]);
        i += 1;
        assert(out@ =~= cards@.take(i as int));
    }
    assert(cards@.take(cards.len() as int) =~= cards@);
    out
}

pub(crate) fn copy_jokers(cards: &[JokerCard]) -> (out: Vec<JokerCard>)
    ensures
        out@ == cards@,
{
    let mut out: Vec<JokerCard> = Vec::new();
    let mut i: usize = 0;
    while i < cards.len()
        invariant
            i <= cards.len(),
            out@ == cards@.take(i as int),
        decreases cards.len() - i,
    {
        out.push(cards[i]);
        i += 1;
        assert(out@ =~= cards@.take(i as int));
    }
    assert(cards@.take(cards.len() as int) =~= cards@);
    out
}

fn cards_with_rank(cards: &[Card], v: u8) -> (out: Vec<Card>)
    ensures
        out@ == rank_group(cards@, v as int),
{
    let mut out: Vec<Card> = Vec::new();
    let mut i: usize = 0;
    while i < cards.len()
        invariant
            i <= cards.len(),
            out@ == rank_group_upto(cards@, v as int, i as int),
        decreases cards.len() - i,
    {
        if HandValue::rank_to_numeric(&cards[i].rank) == v {
            out.push(cards[i]);
        }
        i += 1;
    }
    out
}

fn suit_matches(cards: &[Card], s: Suit) -> (b: bool)
    ensures
        b == suit_fits(cards@, s),
{
    let mut i: usize = 0;
    while i < cards.len()
        invariant
            i <= cards.len(),
            forall|j: int| 0 <= j < i ==> (#[trigger] cards@[j]).wild() || cards@[j].suit == s,
        decreases cards.len() - i,
    {
        if !cards[i].is_wild() && cards[i].suit != s {
            return false;
        }
        i += 1;
    }
    true
}

/// The groups found by `group_by_rank`: one for each rank number from 2 to
/// 14, the group of rank number `v` at position `v - 2`.
pub open spec fn groups_match(cards: Seq<Card>, groups: Seq<Vec<Card>>) -> bool {
    &&& groups.len() == 13
    &&& forall|v: int| 2 <= v <= 14 ==> (#[trigger] groups[v - 2])@ == rank_group(cards, v)
}

impl HandValue {
    /// Classifies the played cards and carries the held cards and the
    /// jokers along.
    pub fn evaluation(cards: &[Card], hold_cards: &[Card], joker_card: &[JokerCard]) -> (r: Self)
        requires
            1 <= cards.len() <= 5,
        ensures
            r.hand == hand_of(cards@),
            r.cards_impl@ == scoring_cards(cards@),
            r.cards_impl.len() >= 1,
            forall|i: int|
                0 <= i < r.cards_impl.len() ==> exists|j: int|
                    0 <= j < cards.len() && cards@[j] == #[trigger] r.cards_impl@[i],
            r.cards_played@ == cards@,
            r.cards_hold_in_hand@ == hold_cards@,
            r.joker_cards@ == joker_card@,
    {
        proof {
            lemma_scoring_cards_are_played(cards@);
        }
        let (hand, cards_impl) = if let Some(c) = Self::check_flush_five(cards) {
            (PokerHand::FlushFive, c)
        } else if let Some(c) = Self::check_flush_house(cards) {
            (PokerHand::FlushHouse, c)
        } else if let Some(c) = Self::check_five_of_a_kind(cards) {
            (PokerHand::FiveOfAKind, c)
        } else if let Some(c) = Self::check_straight_flush(cards) {
            (PokerHand::StraightFlush, c)
        } else if let Some(c) = Self::check_four_of_a_kind(cards) {
            (PokerHand::FourOfAKind, c)
        } else if let Some(c) = Self::check_full_house(cards) {
            (PokerHand::FullHouse, c)
        } else if let Some(c) = Self::check_flush(cards) {
            (PokerHand::Flush, c)
        } else if let Some(c) = Self::check_straight(cards) {
            (PokerHand::Straight, c)
        } else if let Some(c) = Self::check_three_of_a_kind(cards) {
            (PokerHand::ThreeOfAKind, c)
        } else if let Some(c) = Self::check_two_pair(cards) {
            (PokerHand::TwoPair, c)
        } else if let Some(c) = Self::check_pair(cards) {
            (PokerHand::Pair, c)
        } else {
            (PokerHand::HighCard, Self::check_high_card(cards))
        };
        HandValue {
            hand,
            cards_impl,
            cards_played: copy_cards(cards),
            cards_hold_in_hand: copy_cards(hold_cards),
            joker_cards: copy_jokers(joker_card),
        }
    }

    /// Whether the cards that are not wild share one suit.
    pub fn is_flush(cards: &[Card]) -> (b: bool)
        ensures
            b == flush(cards@),
    {
        suit_matches(cards, Suit::Spades) || suit_matches(cards, Suit::Hearts) || suit_matches(
            cards,
            Suit::Clubs,
        ) || suit_matches(cards, Suit::Diamonds)
    }

    /// The number of a rank, from 2 for a two to 14 for an ace.
    pub fn rank_to_numeric(rank: &Rank) -> (v: u8)
        ensures
            v == rank.value(),
    {
        match rank {
            Rank::Two => 2,
            Rank::Three => 3,
            Rank::Four => 4,
            Rank::Five => 5,
            Rank::Six => 6,
            Rank::Seven => 7,
            Rank::Eight => 8,
            Rank::Nine => 9,
            Rank::Ten => 10,
            Rank::Jack => 11,
            Rank::Queen => 12,
            Rank::King => 13,
            Rank::Ace => 14,
        }
    }

    /// Whether the cards are five of consecutive ranks, or the wheel.
    pub fn is_straight(cards: &[Card]) -> (b: bool)
        ensures
            b == straight(cards@),
    {
        if cards.len() != 5 {
            return false;
        }
        let groups = Self::group_by_rank(cards);
        if groups[12].len() >= 1 && groups[0].len() >= 1 && groups[1].len() >= 1
            && groups[2].len() >= 1 && groups[3].len() >= 1 {
            assert(groups@[14 - 2]@ == rank_group(cards@, 14));
            assert(groups@[2 - 2]@ == rank_group(cards@, 2));
            assert(groups@[3 - 2]@ == rank_group(cards@, 3));
            assert(groups@[4 - 2]@ == rank_group(cards@, 4));
            assert(groups@[5 - 2]@ == rank_group(cards@, 5));
            return true;
        }
        proof {
            assert(groups@[14 - 2]@ == rank_group(cards@, 14));
            assert(groups@[2 - 2]@ == rank_group(cards@, 2));
            assert(groups@[3 - 2]@ == rank_group(cards@, 3));
            assert(groups@[4 - 2]@ == rank_group(cards@, 4));
            assert(groups@[5 - 2]@ == rank_group(cards@, 5));
            assert(!wheel(cards@));
        }
        let mut lo: usize = 0;
        while lo <= 8
            invariant
                lo <= 9,
                cards@.len() == 5,
                !wheel(cards@),
                groups_match(cards@, groups@),
                forall|l: int| 2 <= l < lo + 2 ==> !#[trigger] run_from(cards@, l),
            decreases 9 - lo,
        {
            proof {
                assert(groups@[(lo + 2) - 2]@ == rank_group(cards@, lo + 2));
                assert(groups@[(lo + 3) - 2]@ == rank_group(cards@, lo + 3));
                assert(groups@[(lo + 4) - 2]@ == rank_group(cards@, lo + 4));
                assert(groups@[(lo + 5) - 2]@ == rank_group(cards@, lo + 5));
                assert(groups@[(lo + 6) - 2]@ == rank_group(cards@, lo + 6));
            }
            if groups[lo].len() >= 1 && groups[lo + 1].len() >= 1 && groups[lo + 2].len() >= 1
                && groups[lo + 3].len() >= 1 && groups[lo + 4].len() >= 1 {
                assert(run_from(cards@, lo + 2));
                return true;
            }
            assert(!run_from(cards@, lo + 2));
            lo += 1;
        }
        false
    }

    /// Groups the cards by rank: one group for each rank number from 2 to
    /// 14, each in the order of the cards.
    pub fn group_by_rank(cards: &[Card]) -> (groups: Vec<Vec<Card>>)
        ensures
            groups_match(cards@, groups@),
    {
        let mut groups: Vec<Vec<Card>> = Vec::new();
        let mut v: u8 = 2;
        while v <= 14
            invariant
                2 <= v <= 15,
                groups.len() == v - 2,
                forall|w: int| 2 <= w < v ==> (#[trigger] groups@[w - 2])@ == rank_group(cards@, w),
            decreases 15 - v,
        {
            let group = cards_with_rank(cards, v);
            groups.push(group);
            v += 1;
        }
        groups
    }

    /// Counts the rank groups of each size from one to five.
    pub fn group_sizes(cards: &[Card]) -> (s: GroupSizes)
        ensures
            s.ones == groups_of_size(cards@, 1),
            s.twos == groups_of_size(cards@, 2),
            s.threes == groups_of_size(cards@, 3),
            s.fours == groups_of_size(cards@, 4),
            s.fives == groups_of_size(cards@, 5),
    {
        let groups = Self::group_by_rank(cards);
        let mut s = GroupSizes { ones: 0, twos: 0, threes: 0, fours: 0, fives: 0 };
        let mut i: usize = 0;
        while i < 13
            invariant
                i <= 13,
                groups_match(cards@, groups@),
                s.ones == groups_upto(cards@, 1, i + 1),
                s.twos == groups_upto(cards@, 2, i + 1),
                s.threes == groups_upto(cards@, 3, i + 1),
                s.fours == groups_upto(cards@, 4, i + 1),
                s.fives == groups_upto(cards@, 5, i + 1),
                s.ones <= i,
                s.twos <= i,
                s.threes <= i,
                s.fours <= i,
                s.fives <= i,
            decreases 13 - i,
        {
            assert(groups@[(i + 2) - 2]@ == rank_group(cards@, i + 2));
            let n = groups[i].len();
            if n == 1 {
                s.ones += 1;
            } else if n == 2 {
                s.twos += 1;
            } else if n == 3 {
                s.threes += 1;
            } else if n == 4 {
                s.fours += 1;
            } else if n == 5 {
                s.fives += 1;
            }
            i += 1;
        }
        s
    }

    /// Whether some rank's group holds every card.
    fn is_one_rank(cards: &[Card]) -> (b: bool)
        requires
            1 <= cards.len() <= 5,
        ensures
            b == one_rank(cards@),
    {
        let s = Self::group_sizes(cards);
        let n = cards.len();
        if n == 1 {
            s.ones >= 1
        } else if n == 2 {
            s.twos >= 1
        } else if n == 3 {
            s.threes >= 1
        } else if n == 4 {
            s.fours >= 1
        } else {
            s.fives >= 1
        }
    }

    fn is_pair_and_triple(cards: &[Card]) -> (b: bool)
        ensures
            b == pair_and_triple(cards@),
    {
        let s = Self::group_sizes(cards);
        s.ones == 0 && s.twos == 1 && s.threes == 1 && s.fours == 0 && s.fives == 0
    }

    /// The cards whose rank group has `k` cards, in their order.
    fn cards_in_groups_of(cards: &[Card], k: usize) -> (out: Vec<Card>)
        ensures
            out@ == members(cards@, k as nat),
    {
        let groups = Self::group_by_rank(cards);
        let mut out: Vec<Card> = Vec::new();
        let mut i: usize = 0;
        while i < cards.len()
            invariant
                i <= cards.len(),
                groups_match(cards@, groups@),
                out@ == members_upto(cards@, k as nat, i as int),
            decreases cards.len() - i,
        {
            let v = Self::rank_to_numeric(&cards[i].rank);
            assert(groups@[v - 2]@ == rank_group(cards@, v as int));
            if groups[(v - 2) as usize].len() == k {
                out.push(cards[i]);
            }
            i += 1;
        }
        out
    }

    fn check_flush_five(cards: &[Card]) -> (r: Option<Vec<Card>>)
        requires
            1 <= cards.len() <= 5,
        ensures
            r is Some <==> holds(cards@, PokerHand::FlushFive),
            r is Some ==> r->0@ == subset(cards@, PokerHand::FlushFive),
    {
        if Self::is_flush(cards) && Self::is_one_rank(cards) {
            Some(copy_cards(cards))
        } else {
            None
        }
    }

    fn check_flush_house(cards: &[Card]) -> (r: Option<Vec<Card>>)
        ensures
            r is Some <==> holds(cards@, PokerHand::FlushHouse),
            r is Some ==> r->0@ == subset(cards@, PokerHand::FlushHouse),
    {
        if Self::is_flush(cards) && Self::is_pair_and_triple(cards) {
            Some(copy_cards(cards))
        } else {
            None
        }
    }

    fn check_five_of_a_kind(cards: &[Card]) -> (r: Option<Vec<Card>>)
        requires
            1 <= cards.len() <= 5,
        ensures
            r is Some <==> holds(cards@, PokerHand::FiveOfAKind),
            r is Some ==> r->0@ == subset(cards@, PokerHand::FiveOfAKind),
    {
        if cards.len() == 5 && Self::is_one_rank(cards) {
            Some(copy_cards(cards))
        } else {
            None
        }
    }

    fn check_straight_flush(cards: &[Card]) -> (r: Option<Vec<Card>>)
        ensures
            r is Some <==> holds(cards@, PokerHand::StraightFlush),
            r is Some ==> r->0@ == subset(cards@, PokerHand::StraightFlush),
    {
        if Self::is_flush(cards) && Self::is_straight(cards) {
            Some(copy_cards(cards))
        } else {
            None
        }
    }

    fn check_four_of_a_kind(cards: &[Card]) -> (r: Option<Vec<Card>>)
        ensures
            r is Some <==> holds(cards@, PokerHand::FourOfAKind),
            r is Some ==> r->0@ == subset(cards@, PokerHand::FourOfAKind),
    {
        let s = Self::group_sizes(cards);
        if s.fours >= 1 {
            Some(Self::cards_in_groups_of(cards, 4))
        } else {
            None
        }
    }

    fn check_full_house(cards: &[Card]) -> (r: Option<Vec<Card>>)
        ensures
            r is Some <==> holds(cards@, PokerHand::FullHouse),
            r is Some ==> r->0@ == subset(cards@, PokerHand::FullHouse),
    {
        if cards.len() == 5 && Self::is_pair_and_triple(cards) {
            Some(copy_cards(cards))
        } else {
            None
        }
    }

    fn check_flush(cards: &[Card]) -> (r: Option<Vec<Card>>)
        ensures
            r is Some <==> holds(cards@, PokerHand::Flush),
            r is Some ==> r->0@ == subset(cards@, PokerHand::Flush),
    {
        if Self::is_flush(cards) {
            Some(copy_cards(cards))
        } else {
            None
        }
    }

    fn check_straight(cards: &[Card]) -> (r: Option<Vec<Card>>)
        ensures
            r is Some <==> holds(cards@, PokerHand::Straight),
            r is Some ==> r->0@ == subset(cards@, PokerHand::Straight),
    {
        if Self::is_straight(cards) {
            Some(copy_cards(cards))
        } else {
            None
        }
    }

    fn check_three_of_a_kind(cards: &[Card]) -> (r: Option<Vec<Card>>)
        ensures
            r is Some <==> holds(cards@, PokerHand::ThreeOfAKind),
            r is Some ==> r->0@ == subset(cards@, PokerHand::ThreeOfAKind),
    {
        let s = Self::group_sizes(cards);
        if s.threes >= 1 && s.fours == 0 && s.fives == 0 {
            Some(Self::cards_in_groups_of(cards, 3))
        } else {
            None
        }
    }

    fn check_two_pair(cards: &[Card]) -> (r: Option<Vec<Card>>)
        ensures
            r is Some <==> holds(cards@, PokerHand::TwoPair),
            r is Some ==> r->0@ == subset(cards@, PokerHand::TwoPair),
    {
        let s = Self::group_sizes(cards);
        if s.twos == 2 {
            Some(Self::cards_in_groups_of(cards, 2))
        } else {
            None
        }
    }

    fn check_pair(cards: &[Card]) -> (r: Option<Vec<Card>>)
        ensures
            r is Some <==> holds(cards@, PokerHand::Pair),
            r is Some ==> r->0@ == subset(cards@, PokerHand::Pair),
    {
        let s = Self::group_sizes(cards);
        if s.twos == 1 {
            Some(Self::cards_in_groups_of(cards, 2))
        } else {
            None
        }
    }

    /// The highest-ranked card alone.
    fn check_high_card(cards: &[Card]) -> (r: Vec<Card>)
        requires
            1 <= cards.len(),
        ensures
            r@ == subset(cards@, PokerHand::HighCard),
    {
        let mut best: usize = 0;
        let mut i: usize = 1;
        while i < cards.len()
            invariant
                1 <= i <= cards.len(),
                best == highest_upto(cards@, i as int),
                best < i,
            decreases cards.len() - i,
        {
            if Self::rank_to_numeric(&cards[i].rank) > Self::rank_to_numeric(&cards[best].rank) {
                best = i;
            }
            i += 1;
        }
        let mut r: Vec<Card> = Vec::new();
        r.push(cards[best]);
        assert(r@ =~= seq![cards@[highest(cards@)]]);
        r
    }
}

} // verus!
