//! What holds of the classification of any played cards: the scored cards
//! are played cards, the highest category wins, the result depends on the
//! cards alone, and a straight is what the sorted ranks say it is.

use crate::cards::{Card, PokerHand};
use crate::pokerhand::{
    flush, groups_of_size, groups_upto, hand_of, highest, highest_upto, holds, members,
    members_upto, rank_count, rank_group_upto, run_from, scoring_cards, straight, wheel,
};
use vstd::prelude::*;

verus! {

/// The position of the lowest rank among the first `n` cards: the first
/// one where several are equal.
pub open spec fn lowest_upto(cards: Seq<Card>, n: int) -> int
    decreases n,
{
    if n <= 1 {
        0
    } else {
        let best = lowest_upto(cards, n - 1);
        if cards[n - 1].rank.value() < cards[best].rank.value() {
            n - 1
        } else {
            best
        }
    }
}

/// The highest rank number less the lowest.
pub open spec fn span(cards: Seq<Card>) -> int {
    cards[highest(cards)].rank.value() - cards[lowest_upto(cards, cards.len() as int)].rank.value()
}

/// No two cards have the same rank.
pub open spec fn distinct_ranks(cards: Seq<Card>) -> bool {
    forall|i: int, j: int|
        0 <= i < j < cards.len() ==> (#[trigger] cards[i]).rank.value() != (
        #[trigger] cards[j]).rank.value()
}

/// Every one of the first `n` cards whose rank group has `k` cards is one
/// of the cards.
pub proof fn lemma_members_are_cards(cards: Seq<Card>, k: nat, n: int)
    requires
        0 <= n <= cards.len(),
    ensures
        forall|i: int|
            0 <= i < members_upto(cards, k, n).len() ==> exists|j: int|
                0 <= j < n && cards[j] == #[trigger] members_upto(cards, k, n)[i],
    decreases n,
{
    if n > 0 {
        lemma_members_are_cards(cards, k, n - 1);
        let prev = members_upto(cards, k, n - 1);
        let cur = members_upto(cards, k, n);
        assert forall|i: int| 0 <= i < cur.len() implies exists|j: int|
            0 <= j < n && cards[j] == #[trigger] cur[i] by {
            if i < prev.len() {
                assert(cur[i] == prev[i]);
                let j = choose|j: int| 0 <= j < n - 1 && cards[j] == prev[i];
                assert(0 <= j < n && cards[j] == cur[i]);
            } else {
                assert(cards[n - 1] == cur[i]);
            }
        }
    }
}

/// Where some rank group up to rank number `v` has `k` cards, there is
/// such a rank number.
pub proof fn lemma_group_has_rank(cards: Seq<Card>, k: nat, v: int) -> (w: int)
    requires
        groups_upto(cards, k, v) >= 1,
    ensures
        2 <= w <= v,
        rank_count(cards, w) == k,
    decreases v,
{
    if rank_count(cards, v) == k {
        v
    } else {
        lemma_group_has_rank(cards, k, v - 1)
    }
}

/// A rank group that is not empty has a card in it.
pub proof fn lemma_rank_group_has_card(cards: Seq<Card>, v: int, n: int) -> (j: int)
    requires
        0 <= n <= cards.len(),
        rank_group_upto(cards, v, n).len() >= 1,
    ensures
        0 <= j < n,
        cards[j].rank.value() == v,
    decreases n,
{
    if cards[n - 1].rank.value() == v {
        n - 1
    } else {
        lemma_rank_group_has_card(cards, v, n - 1)
    }
}

/// A card whose rank group has `k` cards is among the members of the
/// groups of that size.
pub proof fn lemma_member_is_kept(cards: Seq<Card>, k: nat, j: int, n: int)
    requires
        0 <= j < n <= cards.len(),
        rank_count(cards, cards[j].rank.value()) == k,
    ensures
        members_upto(cards, k, n).len() >= 1,
    decreases n,
{
    if j < n - 1 {
        lemma_member_is_kept(cards, k, j, n - 1);
    }
}

/// Where there is a rank group of `k` cards, with `k` at least one, some
/// card is a member of such a group.
pub proof fn lemma_members_not_empty(cards: Seq<Card>, k: nat)
    requires
        k >= 1,
        groups_of_size(cards, k) >= 1,
    ensures
        members(cards, k).len() >= 1,
{
    let w = lemma_group_has_rank(cards, k, 14);
    let j = lemma_rank_group_has_card(cards, w, cards.len() as int);
    lemma_member_is_kept(cards, k, j, cards.len() as int);
}

/// The scored cards of one to five played cards are not empty, and each
/// of them is one of the played cards.
pub proof fn lemma_scoring_cards_are_played(cards: Seq<Card>)
    requires
        1 <= cards.len() <= 5,
    ensures
        scoring_cards(cards).len() >= 1,
        forall|i: int|
            0 <= i < scoring_cards(cards).len() ==> exists|j: int|
                0 <= j < cards.len() && cards[j] == #[trigger] scoring_cards(cards)[i],
{
    let n = cards.len() as int;
    let scored = scoring_cards(cards);
    match hand_of(cards) {
        PokerHand::FourOfAKind => {
            lemma_members_not_empty(cards, 4);
            lemma_members_are_cards(cards, 4, n);
        },
        PokerHand::ThreeOfAKind => {
            lemma_members_not_empty(cards, 3);
            lemma_members_are_cards(cards, 3, n);
        },
        PokerHand::TwoPair | PokerHand::Pair => {
            lemma_members_not_empty(cards, 2);
            lemma_members_are_cards(cards, 2, n);
        },
        PokerHand::HighCard => {
            lemma_highest_and_lowest_bound(cards, n);
            assert forall|i: int| 0 <= i < scored.len() implies exists|j: int|
                0 <= j < cards.len() && cards[j] == #[trigger] scored[i] by {
                let j = highest(cards);
                assert(0 <= j < cards.len() && cards[j] == scored[i]);
            }
        },
        _ => {
            assert forall|i: int| 0 <= i < scored.len() implies exists|j: int|
                0 <= j < cards.len() && cards[j] == #[trigger] scored[i] by {
                assert(0 <= i < cards.len() && cards[i] == scored[i]);
            }
        },
    }
}

/// The category of the cards is the highest one whose condition holds:
/// its own condition holds, and no category whose condition holds comes
/// above it. So cards that meet the condition of the highest category,
/// the flush of one rank, have that category, whatever else they are.
pub proof fn lemma_highest_category_wins(cards: Seq<Card>, hand: PokerHand)
    requires
        holds(cards, hand),
    ensures
        holds(cards, hand_of(cards)),
        hand_of(cards).strength() >= hand.strength(),
        hand_of(cards).strength() == hand.strength() ==> hand_of(cards) == hand,
        hand == PokerHand::FlushFive ==> hand_of(cards) == PokerHand::FlushFive,
{
}

/// The category and the scored cards depend on the played cards alone:
/// the same cards give the same result.
pub proof fn lemma_classification_is_a_function(a: Seq<Card>, b: Seq<Card>)
    requires
        a.len() == b.len(),
        forall|i: int| 0 <= i < a.len() ==> a[i] == b[i],
    ensures
        hand_of(a) == hand_of(b),
        scoring_cards(a) == scoring_cards(b),
{
    assert(a =~= b);
}

/// The sizes of the thirteen rank groups among the first `n` cards add up
/// to `n`.
pub open spec fn counted(cards: Seq<Card>, n: int) -> nat {
    rank_group_upto(cards, 2, n).len() + rank_group_upto(cards, 3, n).len() + rank_group_upto(
        cards,
        4,
        n,
    ).len() + rank_group_upto(cards, 5, n).len() + rank_group_upto(cards, 6, n).len()
        + rank_group_upto(cards, 7, n).len() + rank_group_upto(cards, 8, n).len()
        + rank_group_upto(cards, 9, n).len() + rank_group_upto(cards, 10, n).len()
        + rank_group_upto(cards, 11, n).len() + rank_group_upto(cards, 12, n).len()
        + rank_group_upto(cards, 13, n).len() + rank_group_upto(cards, 14, n).len()
}

/// Every card is in exactly one rank group.
pub proof fn lemma_groups_hold_every_card(cards: Seq<Card>, n: int)
    requires
        0 <= n <= cards.len(),
    ensures
        counted(cards, n) == n,
    decreases n,
{
    if n > 0 {
        lemma_groups_hold_every_card(cards, n - 1);
    }
}

/// A rank group among the first `n` cards has at most `n` cards.
pub proof fn lemma_group_is_bounded(cards: Seq<Card>, v: int, n: int)
    requires
        0 <= n <= cards.len(),
    ensures
        rank_group_upto(cards, v, n).len() <= n,
    decreases n,
{
    if n > 0 {
        lemma_group_is_bounded(cards, v, n - 1);
    }
}

/// The number of cards whose rank number is from 2 to `v`.
pub open spec fn counted_upto(cards: Seq<Card>, v: int) -> nat
    decreases v,
{
    if v < 2 {
        0
    } else {
        counted_upto(cards, v - 1) + rank_count(cards, v)
    }
}

/// Of up to five cards, the rank groups up to rank number `v`, counted by
/// their sizes from one to five, hold every card whose rank number is up
/// to `v`.
pub proof fn lemma_group_sizes_upto(cards: Seq<Card>, v: int)
    requires
        cards.len() <= 5,
        v <= 14,
    ensures
        groups_upto(cards, 1, v) + 2 * groups_upto(cards, 2, v) + 3 * groups_upto(cards, 3, v) + 4
            * groups_upto(cards, 4, v) + 5 * groups_upto(cards, 5, v) == counted_upto(cards, v),
    decreases v,
{
    if v >= 2 {
        lemma_group_sizes_upto(cards, v - 1);
        lemma_group_is_bounded(cards, v, cards.len() as int);
    }
}

/// Of up to five cards, the numbers of rank groups of each size from one
/// to five account for every card: no group is left out of them.
pub proof fn lemma_group_sizes_hold_every_card(cards: Seq<Card>)
    requires
        cards.len() <= 5,
    ensures
        groups_of_size(cards, 1) + 2 * groups_of_size(cards, 2) + 3 * groups_of_size(cards, 3) + 4
            * groups_of_size(cards, 4) + 5 * groups_of_size(cards, 5) == cards.len(),
{
    lemma_group_sizes_upto(cards, 14);
    lemma_groups_hold_every_card(cards, cards.len() as int);
    assert(counted_upto(cards, 14) == counted(cards, cards.len() as int)) by {
        reveal_with_fuel(counted_upto, 14);
    }
}

/// A card among the first `n` is in the rank group of its rank.
pub proof fn lemma_card_in_group(cards: Seq<Card>, j: int, n: int)
    requires
        0 <= j < n <= cards.len(),
    ensures
        rank_group_upto(cards, cards[j].rank.value(), n).len() >= 1,
    decreases n,
{
    if j < n - 1 {
        lemma_card_in_group(cards, j, n - 1);
    }
}

/// Two cards of one rank among the first `n` make a rank group of two
/// cards or more.
pub proof fn lemma_pair_in_group(cards: Seq<Card>, i: int, j: int, n: int)
    requires
        0 <= i < j < n <= cards.len(),
        cards[i].rank.value() == cards[j].rank.value(),
    ensures
        rank_group_upto(cards, cards[i].rank.value(), n).len() >= 2,
    decreases n,
{
    if j < n - 1 {
        lemma_pair_in_group(cards, i, j, n - 1);
    } else {
        lemma_card_in_group(cards, i, n - 1);
    }
}

/// A rank group of two cards or more holds two cards of one rank.
pub proof fn lemma_group_has_pair(cards: Seq<Card>, v: int, n: int) -> (pair: (int, int))
    requires
        0 <= n <= cards.len(),
        rank_group_upto(cards, v, n).len() >= 2,
    ensures
        0 <= pair.0 < pair.1 < n,
        cards[pair.0].rank.value() == v,
        cards[pair.1].rank.value() == v,
    decreases n,
{
    if cards[n - 1].rank.value() == v {
        let i = lemma_rank_group_has_card(cards, v, n - 1);
        (i, n - 1)
    } else {
        lemma_group_has_pair(cards, v, n - 1)
    }
}

/// No card among the first `n` ranks above the highest or below the
/// lowest.
pub proof fn lemma_highest_and_lowest_bound(cards: Seq<Card>, n: int)
    requires
        1 <= n <= cards.len(),
    ensures
        0 <= highest_upto(cards, n) < n,
        0 <= lowest_upto(cards, n) < n,
        forall|j: int|
            0 <= j < n ==> (#[trigger] cards[j]).rank.value() <= cards[highest_upto(
                cards,
                n,
            )].rank.value(),
        forall|j: int|
            0 <= j < n ==> (#[trigger] cards[j]).rank.value() >= cards[lowest_upto(
                cards,
                n,
            )].rank.value(),
    decreases n,
{
    if n > 1 {
        lemma_highest_and_lowest_bound(cards, n - 1);
    }
}

/// No rank group has two cards or more.
pub open spec fn groups_are_single(cards: Seq<Card>) -> bool {
    forall|v: int| 2 <= v <= 14 ==> #[trigger] rank_count(cards, v) <= 1
}

/// Every rank group below `from` or more than four above it is empty.
pub open spec fn groups_within(cards: Seq<Card>, from: int) -> bool {
    forall|v: int| 2 <= v <= 14 && (v < from || v > from + 4) ==> #[trigger] rank_count(cards, v) == 0
}

/// Of five cards, the five rank numbers from `from` on all occur exactly
/// where no rank occurs twice and none occurs outside those five.
pub proof fn lemma_run_fills_window(cards: Seq<Card>, from: int)
    requires
        cards.len() == 5,
        2 <= from <= 10,
    ensures
        run_from(cards, from) <==> groups_are_single(cards) && groups_within(cards, from),
{
    lemma_groups_hold_every_card(cards, 5);
    let total = rank_count(cards, 2) + rank_count(cards, 3) + rank_count(cards, 4) + rank_count(
        cards,
        5,
    ) + rank_count(cards, 6) + rank_count(cards, 7) + rank_count(cards, 8) + rank_count(cards, 9)
        + rank_count(cards, 10) + rank_count(cards, 11) + rank_count(cards, 12) + rank_count(
        cards,
        13,
    ) + rank_count(cards, 14);
    assert(total == counted(cards, 5));
    if from == 2 {
    } else if from == 3 {
    } else if from == 4 {
    } else if from == 5 {
    } else if from == 6 {
    } else if from == 7 {
    } else if from == 8 {
    } else if from == 9 {
    } else {
    }
}

/// Five cards that are ace, two, three, four and five have no rank twice.
pub proof fn lemma_wheel_is_single(cards: Seq<Card>)
    requires
        cards.len() == 5,
        wheel(cards),
    ensures
        groups_are_single(cards),
{
    lemma_groups_hold_every_card(cards, 5);
}

/// Five cards are a straight exactly where their ranks are five different
/// ones and either the highest is four above the lowest or they are ace,
/// two, three, four and five.
pub proof fn lemma_straight_by_span(cards: Seq<Card>)
    requires
        cards.len() == 5,
    ensures
        straight(cards) <==> distinct_ranks(cards) && (span(cards) == 4 || wheel(cards)),
{
    let n = 5int;
    lemma_highest_and_lowest_bound(cards, n);
    let top = highest(cards);
    let bottom = lowest_upto(cards, n);
    let hi = cards[top].rank.value();
    let lo = cards[bottom].rank.value();
    lemma_card_in_group(cards, top, n);
    lemma_card_in_group(cards, bottom, n);
    if straight(cards) {
        if wheel(cards) {
            lemma_wheel_is_single(cards);
        } else {
            let from = choose|from: int| 2 <= from <= 10 && run_from(cards, from);
            lemma_run_fills_window(cards, from);
            let j = lemma_rank_group_has_card(cards, from, n);
            let k = lemma_rank_group_has_card(cards, from + 4, n);
            assert(lo <= cards[j].rank.value());
            assert(hi >= cards[k].rank.value());
            assert(rank_count(cards, lo) >= 1);
            assert(rank_count(cards, hi) >= 1);
        }
        assert forall|i: int, j: int| 0 <= i < j < cards.len() implies (
        #[trigger] cards[i]).rank.value() != (#[trigger] cards[j]).rank.value() by {
            if cards[i].rank.value() == cards[j].rank.value() {
                lemma_pair_in_group(cards, i, j, n);
                assert(rank_count(cards, cards[i].rank.value()) >= 2);
            }
        }
    }
    if distinct_ranks(cards) && span(cards) == 4 {
        assert forall|v: int| 2 <= v <= 14 implies #[trigger] rank_count(cards, v) <= 1 by {
            if rank_count(cards, v) >= 2 {
                let pair = lemma_group_has_pair(cards, v, n);
                assert(cards[pair.0].rank.value() == cards[pair.1].rank.value());
            }
        }
        assert forall|v: int| 2 <= v <= 14 && (v < lo || v > lo + 4) implies #[trigger] rank_count(
            cards,
            v,
        ) == 0 by {
            if rank_count(cards, v) >= 1 {
                let j = lemma_rank_group_has_card(cards, v, n);
                assert(lo <= cards[j].rank.value() <= hi);
            }
        }
        lemma_run_fills_window(cards, lo);
    }
}

/// Five cards of the ranks ace, two, three, four and five, in any order
/// and of any suits, are a straight flush where they are a flush, and a
/// straight where they are not.
pub proof fn lemma_wheel_is_straight(cards: Seq<Card>)
    requires
        cards.len() == 5,
        wheel(cards),
    ensures
        flush(cards) ==> hand_of(cards) == PokerHand::StraightFlush,
        !flush(cards) ==> hand_of(cards) == PokerHand::Straight,
        scoring_cards(cards) == cards,
{
    lemma_groups_hold_every_card(cards, 5);
    reveal_with_fuel(groups_upto, 14);
    assert(groups_of_size(cards, 5) == 0);
    assert(groups_of_size(cards, 4) == 0);
    assert(groups_of_size(cards, 3) == 0);
    assert(groups_of_size(cards, 2) == 0);
}

} // verus!
