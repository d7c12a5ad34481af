//! The score of a round: the effects of the cards and jokers, in the
//! order in which they apply, and the chips and multiplier they add up to.
//!
//! The multiplier is kept as an exact fraction, so that halves are never
//! rounded before the final product.

use crate::cards::{Card, Edition, Enhancement, Joker, JokerCard, PokerHand, Rank, Suit};
use crate::jokers::{active_jokers, HandJoker};
use crate::pokerhand::{hand_of, scoring_cards, HandValue};
use crate::score_laws::lemma_run_grows;
use vstd::prelude::*;

verus! {

/// One change to the running score.
#[derive(Clone, Copy, Debug, PartialEq, Eq)]
pub enum Effect {
    /// Chips plus a number.
    AddChips(u128),
    /// Multiplier plus a number.
    AddMult(u128),
    /// Multiplier times 2.
    DoubleMult,
    /// Multiplier times 3.
    TripleMult,
    /// Multiplier times 1.5.
    HalfAgainMult,
}

/// The running score as mathematics sees it: the chips, and the
/// multiplier as the fraction `num / den`.
pub struct Tally {
    pub chips: int,
    pub num: int,
    pub den: int,
}

/// The score of a round: the chips the category started from, the chips
/// in total, and the multiplier as the fraction `mult_num / mult_den`.
#[derive(Clone, Copy, Debug, PartialEq, Eq)]
pub struct Sorce {
    pub card_chips: u128,
    pub total_chips: u128,
    pub mult_num: u128,
    pub mult_den: u128,
}

/// What one effect makes of a score.
pub open spec fn apply(t: Tally, e: Effect) -> Tally {
    match e {
        Effect::AddChips(n) => Tally { chips: t.chips + n, ..t },
        Effect::AddMult(n) => Tally { num: t.num + n * t.den, ..t },
        Effect::DoubleMult => Tally { num: t.num * 2, ..t },
        Effect::TripleMult => Tally { num: t.num * 3, ..t },
        Effect::HalfAgainMult => Tally { num: t.num * 3, den: t.den * 2, ..t },
    }
}

/// What a list of effects makes of a score, applied from the first to the
/// last.
pub open spec fn run(t: Tally, effects: Seq<Effect>) -> Tally
    decreases effects.len(),
{
    if effects.len() == 0 {
        t
    } else {
        apply(run(t, effects.drop_last()), effects.last())
    }
}

/// The score can be held in 128-bit numbers.
pub open spec fn fits(t: Tally) -> bool {
    t.chips <= u128::MAX && t.num <= u128::MAX && t.den <= u128::MAX
}

/// No part of the score is negative.
pub open spec fn sound(t: Tally) -> bool {
    0 <= t.chips && 0 <= t.num && 0 <= t.den
}

/// A list of no effect or one.
pub open spec fn opt_seq(e: Option<Effect>) -> Seq<Effect> {
    match e {
        Some(e) => seq![e],
        None => Seq::empty(),
    }
}

/// The effect of a scored card's enhancement.
pub open spec fn enhancement_effect(e: Option<Enhancement>) -> Option<Effect> {
    match e {
        Some(Enhancement::Bonus) => Some(Effect::AddChips(30)),
        Some(Enhancement::Mult) => Some(Effect::AddMult(4)),
        Some(Enhancement::Glass) => Some(Effect::DoubleMult),
        _ => None,
    }
}

/// The effect of an edition, on a scored card and on a joker alike.
pub open spec fn edition_effect(e: Option<Edition>) -> Option<Effect> {
    match e {
        Some(Edition::Foil) => Some(Effect::AddChips(50)),
        Some(Edition::Holographic) => Some(Effect::AddMult(10)),
        Some(Edition::Polychrome) => Some(Effect::HalfAgainMult),
        None => None,
    }
}

/// The effect of a joker on one scored card. `first_face` says that the
/// card is the first face card scored and the joker the first Photograph.
pub open spec fn joker_on_card(joker: Joker, card: Card, first_face: bool) -> Option<Effect> {
    let v = card.rank.value();
    match joker {
        Joker::GreedyJoker => if card.suit == Suit::Diamonds {
            Some(Effect::AddMult(3))
        } else {
            None
        },
        Joker::LustyJoker => if card.suit == Suit::Hearts {
            Some(Effect::AddMult(3))
        } else {
            None
        },
        Joker::WrathfulJoker => if card.suit == Suit::Spades {
            Some(Effect::AddMult(3))
        } else {
            None
        },
        Joker::GluttonousJoker => if card.suit == Suit::Clubs {
            Some(Effect::AddMult(3))
        } else {
            None
        },
        Joker::Fibonacci => if v == 2 || v == 3 || v == 5 || v == 8 || v == 11 {
            Some(Effect::AddMult(8))
        } else {
            None
        },
        Joker::EvenSteven => if v == 2 || v == 4 || v == 6 || v == 8 || v == 10 {
            Some(Effect::AddMult(4))
        } else {
            None
        },
        Joker::OddTodd => if v == 3 || v == 5 || v == 7 || v == 9 || v == 11 {
            Some(Effect::AddMult(4))
        } else {
            None
        },
        Joker::ScaryFace => if card.rank.face() {
            Some(Effect::AddChips(30))
        } else {
            None
        },
        Joker::SmileyFace => if card.rank.face() {
            Some(Effect::AddMult(5))
        } else {
            None
        },
        Joker::Photograph => if card.rank.face() && first_face {
            Some(Effect::DoubleMult)
        } else {
            None
        },
        _ => None,
    }
}

/// None of the first `n` cards is a face card.
pub open spec fn no_face_upto(cards: Seq<Card>, n: int) -> bool
    decreases n,
{
    n <= 0 || (no_face_upto(cards, n - 1) && !cards[n - 1].rank.face())
}

/// None of the first `n` jokers is a Photograph.
pub open spec fn no_photograph_upto(jokers: Seq<JokerCard>, n: int) -> bool
    decreases n,
{
    n <= 0 || (no_photograph_upto(jokers, n - 1) && jokers[n - 1].joker != Joker::Photograph)
}

/// The effects of the first `n` jokers on one scored card. `lead` says
/// that no face card was scored before this card.
pub open spec fn jokers_on_card_upto(
    jokers: Seq<JokerCard>,
    card: Card,
    lead: bool,
    n: int,
) -> Seq<Effect>
    decreases n,
{
    if n <= 0 {
        Seq::empty()
    } else {
        jokers_on_card_upto(jokers, card, lead, n - 1) + opt_seq(
            joker_on_card(jokers[n - 1].joker, card, lead && no_photograph_upto(jokers, n - 1)),
        )
    }
}

/// The effects of one scored card: its rank, its enhancement, its
/// edition, then each joker in turn.
pub open spec fn card_effects(card: Card, jokers: Seq<JokerCard>, lead: bool) -> Seq<Effect> {
    seq![Effect::AddChips(card.rank.value() as u128)] + opt_seq(
        enhancement_effect(card.enhancement),
    ) + opt_seq(edition_effect(card.edition)) + jokers_on_card_upto(
        jokers,
        card,
        lead,
        jokers.len() as int,
    )
}

/// The effects of the first `n` scored cards.
pub open spec fn scored_upto(cards: Seq<Card>, jokers: Seq<JokerCard>, n: int) -> Seq<Effect>
    decreases n,
{
    if n <= 0 {
        Seq::empty()
    } else {
        scored_upto(cards, jokers, n - 1) + card_effects(
            cards[n - 1],
            jokers,
            no_face_upto(cards, n - 1),
        )
    }
}

/// The effects of the first `n` held cards: each Steel card multiplies.
pub open spec fn steel_upto(held: Seq<Card>, n: int) -> Seq<Effect>
    decreases n,
{
    if n <= 0 {
        Seq::empty()
    } else {
        steel_upto(held, n - 1) + opt_seq(
            if held[n - 1].enhancement == Some(Enhancement::Steel) {
                Some(Effect::HalfAgainMult)
            } else {
                None
            },
        )
    }
}

/// One multiplication by 1.5 for each king among the first `n` held cards.
pub open spec fn kings_upto(held: Seq<Card>, n: int) -> Seq<Effect>
    decreases n,
{
    if n <= 0 {
        Seq::empty()
    } else {
        kings_upto(held, n - 1) + opt_seq(
            if held[n - 1].rank == Rank::King {
                Some(Effect::HalfAgainMult)
            } else {
                None
            },
        )
    }
}

/// The effects of the Barons among the first `n` jokers.
pub open spec fn barons_upto(jokers: Seq<JokerCard>, held: Seq<Card>, n: int) -> Seq<Effect>
    decreases n,
{
    if n <= 0 {
        Seq::empty()
    } else {
        barons_upto(jokers, held, n - 1) + if jokers[n - 1].joker == Joker::Baron {
            kings_upto(held, held.len() as int)
        } else {
            Seq::empty()
        }
    }
}

/// Every held card is a club or a spade.
pub open spec fn all_black(held: Seq<Card>) -> bool {
    forall|i: int|
        0 <= i < held.len() ==> (#[trigger] held[i]).suit == Suit::Clubs || held[i].suit
            == Suit::Spades
}

/// Some card among the first `n` is not wild and has suit `s`.
pub open spec fn plain_suit_upto(cards: Seq<Card>, s: Suit, n: int) -> bool
    decreases n,
{
    n > 0 && (plain_suit_upto(cards, s, n - 1) || (!cards[n - 1].wild() && cards[n - 1].suit == s))
}

/// The number of wild cards among the first `n`.
pub open spec fn wilds_upto(cards: Seq<Card>, n: int) -> nat
    decreases n,
{
    if n <= 0 {
        0
    } else {
        wilds_upto(cards, n - 1) + if cards[n - 1].wild() {
            1nat
        } else {
            0nat
        }
    }
}

/// 1 where a card that is not wild has suit `s`, else 0.
pub open spec fn suit_shown(cards: Seq<Card>, s: Suit) -> nat {
    if plain_suit_upto(cards, s, cards.len() as int) {
        1
    } else {
        0
    }
}

/// The played cards show all four suits, each wild card standing for one
/// suit that is missing.
pub open spec fn covers_suits(cards: Seq<Card>) -> bool {
    suit_shown(cards, Suit::Spades) + suit_shown(cards, Suit::Hearts) + suit_shown(
        cards,
        Suit::Clubs,
    ) + suit_shown(cards, Suit::Diamonds) + wilds_upto(cards, cards.len() as int) >= 4
}

/// The effect of a joker on the round as a whole. `total` is the number
/// of jokers owned, active or not. A Raised Fist with no held card adds
/// nothing.
pub open spec fn flat(joker: Joker, played: Seq<Card>, held: Seq<Card>, total: nat) -> Option<
    Effect,
> {
    match joker {
        Joker::Joker => Some(Effect::AddMult(4)),
        Joker::JollyJoker => Some(Effect::AddMult(8)),
        Joker::ZanyJoker => Some(Effect::AddMult(12)),
        Joker::MadJoker => Some(Effect::AddMult(10)),
        Joker::CrazyJoker => Some(Effect::AddMult(12)),
        Joker::DrollJoker => Some(Effect::AddMult(10)),
        Joker::SlyJoker => Some(Effect::AddChips(50)),
        Joker::WilyJoker => Some(Effect::AddChips(100)),
        Joker::CleverJoker => Some(Effect::AddChips(80)),
        Joker::DeviousJoker => Some(Effect::AddChips(100)),
        Joker::CraftyJoker => Some(Effect::AddChips(80)),
        Joker::AbstractJoker => Some(Effect::AddMult((3 * total) as u128)),
        Joker::RaisedFist => if held.len() > 0 {
            Some(Effect::AddMult((2 * held.last().rank.value()) as u128))
        } else {
            None
        },
        Joker::Blackboard => if all_black(held) {
            Some(Effect::TripleMult)
        } else {
            None
        },
        Joker::FlowerPot => if covers_suits(played) {
            Some(Effect::TripleMult)
        } else {
            None
        },
        _ => None,
    }
}

/// The effects on the round of the first `n` jokers.
pub open spec fn flat_upto(
    jokers: Seq<JokerCard>,
    played: Seq<Card>,
    held: Seq<Card>,
    total: nat,
    n: int,
) -> Seq<Effect>
    decreases n,
{
    if n <= 0 {
        Seq::empty()
    } else {
        flat_upto(jokers, played, held, total, n - 1) + opt_seq(
            flat(jokers[n - 1].joker, played, held, total),
        )
    }
}

/// The effects of the editions of the first `n` jokers.
pub open spec fn editions_upto(jokers: Seq<JokerCard>, n: int) -> Seq<Effect>
    decreases n,
{
    if n <= 0 {
        Seq::empty()
    } else {
        editions_upto(jokers, n - 1) + opt_seq(edition_effect(jokers[n - 1].edition))
    }
}

/// All effects of a round in the order in which they apply: the scored
/// cards, the held cards, the Barons, the jokers' effects on the round,
/// the jokers' editions.
pub open spec fn round_effects(
    scored: Seq<Card>,
    played: Seq<Card>,
    held: Seq<Card>,
    jokers: Seq<JokerCard>,
    total: nat,
) -> Seq<Effect> {
    scored_upto(scored, jokers, scored.len() as int) + steel_upto(held, held.len() as int)
        + barons_upto(jokers, held, jokers.len() as int) + flat_upto(
        jokers,
        played,
        held,
        total,
        jokers.len() as int,
    ) + editions_upto(jokers, jokers.len() as int)
}

/// The score that a hand of a category starts from.
pub open spec fn start(hand: PokerHand) -> Tally {
    Tally { chips: hand.base().0, num: hand.base().1, den: 1 }
}

/// The score of a round.
pub open spec fn score_of(
    hand: PokerHand,
    scored: Seq<Card>,
    played: Seq<Card>,
    held: Seq<Card>,
    jokers: Seq<JokerCard>,
    total: nat,
) -> Tally {
    run(start(hand), round_effects(scored, played, held, jokers, total))
}

/// The score of a round from what is played, held and owned: the played
/// cards are classified, the jokers filtered, and the effects applied.
pub open spec fn round_score(played: Seq<Card>, held: Seq<Card>, jokers: Seq<JokerCard>) -> Tally {
    score_of(
        hand_of(played),
        scoring_cards(played),
        played,
        held,
        active_jokers(jokers, hand_of(played), played),
        jokers.len(),
    )
}

fn push_opt(out: &mut Vec<Effect>, e: Option<Effect>)
    ensures
        final(out)@ == old(out)@ + opt_seq(e),
{
    match e {
        Some(e) => {
            out.push(e);
            assert(final(out)@ =~= old(out)@ + opt_seq(Some(e)));
        },
        None => {
            assert(out@ =~= old(out)@ + opt_seq(None));
        },
    }
}

fn push_all(out: &mut Vec<Effect>, more: &Vec<Effect>)
    ensures
        final(out)@ == old(out)@ + more@,
{
    let mut i: usize = 0;
    while i < more.len()
        invariant
            i <= more.len(),
            out@ == old(out)@ + more@.take(i as int),
        decreases more.len() - i,
    {
        out.push(more[i]);
        i += 1;
        assert(out@ =~= old(out)@ + more@.take(i as int));
    }
    assert(more@.take(more.len() as int) =~= more@);
}

fn enhancement_of(e: Option<Enhancement>) -> (r: Option<Effect>)
    ensures
        r == enhancement_effect(e),
{
    match e {
        Some(Enhancement::Bonus) => Some(Effect::AddChips(30)),
        Some(Enhancement::Mult) => Some(Effect::AddMult(4)),
        Some(Enhancement::Glass) => Some(Effect::DoubleMult),
        _ => None,
    }
}

fn edition_of(e: Option<Edition>) -> (r: Option<Effect>)
    ensures
        r == edition_effect(e),
{
    match e {
        Some(Edition::Foil) => Some(Effect::AddChips(50)),
        Some(Edition::Holographic) => Some(Effect::AddMult(10)),
        Some(Edition::Polychrome) => Some(Effect::HalfAgainMult),
        None => None,
    }
}

fn when(condition: bool, e: Effect) -> (r: Option<Effect>)
    ensures
        r == (if condition {
            Some(e)
        } else {
            None
        }),
{
    if condition {
        Some(e)
    } else {
        None
    }
}

fn joker_effect_on_card(joker: Joker, card: &Card, first_face: bool) -> (r: Option<Effect>)
    ensures
        r == joker_on_card(joker, *card, first_face),
{
    let v = HandValue::rank_to_numeric(&card.rank);
    match joker {
        Joker::GreedyJoker => when(card.suit == Suit::Diamonds, Effect::AddMult(3)),
        Joker::LustyJoker => when(card.suit == Suit::Hearts, Effect::AddMult(3)),
        Joker::WrathfulJoker => when(card.suit == Suit::Spades, Effect::AddMult(3)),
        Joker::GluttonousJoker => when(card.suit == Suit::Clubs, Effect::AddMult(3)),
        Joker::Fibonacci => when(
            v == 2 || v == 3 || v == 5 || v == 8 || v == 11,
            Effect::AddMult(8),
        ),
        Joker::EvenSteven => when(
            v == 2 || v == 4 || v == 6 || v == 8 || v == 10,
            Effect::AddMult(4),
        ),
        Joker::OddTodd => when(
            v == 3 || v == 5 || v == 7 || v == 9 || v == 11,
            Effect::AddMult(4),
        ),
        Joker::ScaryFace => when(card.rank.is_face(), Effect::AddChips(30)),
        Joker::SmileyFace => when(card.rank.is_face(), Effect::AddMult(5)),
        Joker::Photograph => when(card.rank.is_face() && first_face, Effect::DoubleMult),
        _ => None,
    }
}

fn effects_of_card(card: &Card, jokers: &Vec<JokerCard>, lead: bool) -> (out: Vec<Effect>)
    ensures
        out@ == card_effects(*card, jokers@, lead),
{
    let mut out: Vec<Effect> = Vec::new();
    let v = HandValue::rank_to_numeric(&card.rank);
    out.push(Effect::AddChips(v as u128));
    push_opt(&mut out, enhancement_of(card.enhancement));
    push_opt(&mut out, edition_of(card.edition));
    let ghost head = out@;
    let mut fresh = true;
    let mut j: usize = 0;
    while j < jokers.len()
        invariant
            j <= jokers.len(),
            fresh == no_photograph_upto(jokers@, j as int),
            out@ == head + jokers_on_card_upto(jokers@, *card, lead, j as int),
        decreases jokers.len() - j,
    {
        let joker = jokers[j].joker;
        push_opt(&mut out, joker_effect_on_card(joker, card, lead && fresh));
        assert(out@ =~= head + jokers_on_card_upto(jokers@, *card, lead, j + 1));
        if joker == Joker::Photograph {
            fresh = false;
        }
        j += 1;
    }
    assert(head =~= seq![Effect::AddChips(card.rank.value() as u128)] + opt_seq(
        enhancement_effect(card.enhancement),
    ) + opt_seq(edition_effect(card.edition)));
    out
}

fn effects_of_scored(cards: &Vec<Card>, jokers: &Vec<JokerCard>) -> (out: Vec<Effect>)
    ensures
        out@ == scored_upto(cards@, jokers@, cards.len() as int),
{
    let mut out: Vec<Effect> = Vec::new();
    let mut lead = true;
    let mut i: usize = 0;
    while i < cards.len()
        invariant
            i <= cards.len(),
            lead == no_face_upto(cards@, i as int),
            out@ == scored_upto(cards@, jokers@, i as int),
        decreases cards.len() - i,
    {
        let more = effects_of_card(&cards[i], jokers, lead);
        push_all(&mut out, &more);
        if cards[i].rank.is_face() {
            lead = false;
        }
        i += 1;
    }
    out
}

fn effects_of_steel(held: &Vec<Card>) -> (out: Vec<Effect>)
    ensures
        out@ == steel_upto(held@, held.len() as int),
{
    let mut out: Vec<Effect> = Vec::new();
    let mut i: usize = 0;
    while i < held.len()
        invariant
            i <= held.len(),
            out@ == steel_upto(held@, i as int),
        decreases held.len() - i,
    {
        let steel = match held[i].enhancement {
            Some(Enhancement::Steel) => true,
            _ => false,
        };
        push_opt(&mut out, when(steel, Effect::HalfAgainMult));
        i += 1;
    }
    out
}

fn effects_of_kings(held: &Vec<Card>) -> (out: Vec<Effect>)
    ensures
        out@ == kings_upto(held@, held.len() as int),
{
    let mut out: Vec<Effect> = Vec::new();
    let mut i: usize = 0;
    while i < held.len()
        invariant
            i <= held.len(),
            out@ == kings_upto(held@, i as int),
        decreases held.len() - i,
    {
        push_opt(&mut out, when(held[i].rank == Rank::King, Effect::HalfAgainMult));
        i += 1;
    }
    out
}

fn effects_of_barons(jokers: &Vec<JokerCard>, held: &Vec<Card>) -> (out: Vec<Effect>)
    ensures
        out@ == barons_upto(jokers@, held@, jokers.len() as int),
{
    let kings = effects_of_kings(held);
    let mut out: Vec<Effect> = Vec::new();
    let mut i: usize = 0;
    while i < jokers.len()
        invariant
            i <= jokers.len(),
            kings@ == kings_upto(held@, held.len() as int),
            out@ == barons_upto(jokers@, held@, i as int),
        decreases jokers.len() - i,
    {
        if jokers[i].joker == Joker::Baron {
            push_all(&mut out, &kings);
        } else {
            assert(out@ =~= out@ + Seq::<Effect>::empty());
        }
        i += 1;
    }
    out
}

fn is_all_black(held: &Vec<Card>) -> (b: bool)
    ensures
        b == all_black(held@),
{
    let mut i: usize = 0;
    while i < held.len()
        invariant
            i <= held.len(),
            forall|j: int|
                0 <= j < i ==> (#[trigger] held@[j]).suit == Suit::Clubs || held@[j].suit
                    == Suit::Spades,
        decreases held.len() - i,
    {
        if !(held[i].suit == Suit::Clubs || held[i].suit == Suit::Spades) {
            return false;
        }
        i += 1;
    }
    true
}

fn shows_suit(cards: &Vec<Card>, s: Suit) -> (n: usize)
    ensures
        n == suit_shown(cards@, s),
{
    let mut found = false;
    let mut i: usize = 0;
    while i < cards.len()
        invariant
            i <= cards.len(),
            found == plain_suit_upto(cards@, s, i as int),
        decreases cards.len() - i,
    {
        if !cards[i].is_wild() && cards[i].suit == s {
            found = true;
        }
        i += 1;
    }
    if found {
        1
    } else {
        0
    }
}

fn is_covering_suits(cards: &Vec<Card>) -> (b: bool)
    ensures
        b == covers_suits(cards@),
{
    let mut wilds: usize = 0;
    let mut i: usize = 0;
    while i < cards.len()
        invariant
            i <= cards.len(),
            wilds == wilds_upto(cards@, i as int),
            wilds <= i,
        decreases cards.len() - i,
    {
        if cards[i].is_wild() {
            wilds += 1;
        }
        i += 1;
    }
    let shown = shows_suit(cards, Suit::Spades) + shows_suit(cards, Suit::Hearts) + shows_suit(
        cards,
        Suit::Clubs,
    ) + shows_suit(cards, Suit::Diamonds);
    wilds >= 4 || shown + wilds >= 4
}

fn flat_effect(joker: Joker, played: &Vec<Card>, held: &Vec<Card>, total: usize) -> (r: Option<
    Effect,
>)
    ensures
        r == flat(joker, played@, held@, total as nat),
{
    match joker {
        Joker::Joker => Some(Effect::AddMult(4)),
        Joker::JollyJoker => Some(Effect::AddMult(8)),
        Joker::ZanyJoker => Some(Effect::AddMult(12)),
        Joker::MadJoker => Some(Effect::AddMult(10)),
        Joker::CrazyJoker => Some(Effect::AddMult(12)),
        Joker::DrollJoker => Some(Effect::AddMult(10)),
        Joker::SlyJoker => Some(Effect::AddChips(50)),
        Joker::WilyJoker => Some(Effect::AddChips(100)),
        Joker::CleverJoker => Some(Effect::AddChips(80)),
        Joker::DeviousJoker => Some(Effect::AddChips(100)),
        Joker::CraftyJoker => Some(Effect::AddChips(80)),
        Joker::AbstractJoker => {
            let n: u128 = 3 * (total as u128);
            Some(Effect::AddMult(n))
        },
        Joker::RaisedFist => {
            if held.len() > 0 {
                let v = HandValue::rank_to_numeric(&held[held.len() - 1].rank);
                let n: u128 = 2 * (v as u128);
                Some(Effect::AddMult(n))
            } else {
                None
            }
        },
        Joker::Blackboard => when(is_all_black(held), Effect::TripleMult),
        Joker::FlowerPot => when(is_covering_suits(played), Effect::TripleMult),
        _ => None,
    }
}

fn effects_of_jokers(
    jokers: &Vec<JokerCard>,
    played: &Vec<Card>,
    held: &Vec<Card>,
    total: usize,
) -> (out: Vec<Effect>)
    ensures
        out@ == flat_upto(jokers@, played@, held@, total as nat, jokers.len() as int),
{
    let mut out: Vec<Effect> = Vec::new();
    let mut i: usize = 0;
    while i < jokers.len()
        invariant
            i <= jokers.len(),
            out@ == flat_upto(jokers@, played@, held@, total as nat, i as int),
        decreases jokers.len() - i,
    {
        push_opt(&mut out, flat_effect(jokers[i].joker, played, held, total));
        i += 1;
    }
    out
}

fn effects_of_editions(jokers: &Vec<JokerCard>) -> (out: Vec<Effect>)
    ensures
        out@ == editions_upto(jokers@, jokers.len() as int),
{
    let mut out: Vec<Effect> = Vec::new();
    let mut i: usize = 0;
    while i < jokers.len()
        invariant
            i <= jokers.len(),
            out@ == editions_upto(jokers@, i as int),
        decreases jokers.len() - i,
    {
        push_opt(&mut out, edition_of(jokers[i].edition));
        i += 1;
    }
    out
}

impl HandJoker {
    /// The score of this round as mathematics sees it.
    pub open spec fn score(&self) -> Tally {
        score_of(
            self.hand,
            self.cards_impl@,
            self.cards_played@,
            self.cards_hold_in_hand@,
            self.work_joker_cards_in_hand@,
            self.total_joker_number as nat,
        )
    }

    /// Lists the effects of the round in the order in which they apply.
    pub fn effects(&self) -> (out: Vec<Effect>)
        ensures
            out@ == round_effects(
                self.cards_impl@,
                self.cards_played@,
                self.cards_hold_in_hand@,
                self.work_joker_cards_in_hand@,
                self.total_joker_number as nat,
            ),
    {
        let jokers = &self.work_joker_cards_in_hand;
        let mut out = effects_of_scored(&self.cards_impl, jokers);
        let steel = effects_of_steel(&self.cards_hold_in_hand);
        push_all(&mut out, &steel);
        let barons = effects_of_barons(jokers, &self.cards_hold_in_hand);
        push_all(&mut out, &barons);
        let flats = effects_of_jokers(
            jokers,
            &self.cards_played,
            &self.cards_hold_in_hand,
            self.total_joker_number,
        );
        push_all(&mut out, &flats);
        let editions = effects_of_editions(jokers);
        push_all(&mut out, &editions);
        out
    }
}

impl View for Sorce {
    type V = Tally;

    open spec fn view(&self) -> Tally {
        Tally { chips: self.total_chips as int, num: self.mult_num as int, den: self.mult_den as int }
    }
}

impl Sorce {
    /// The multiplier is a fraction: its denominator is not zero.
    pub open spec fn wf(&self) -> bool {
        self.mult_den >= 1
    }

    /// The score that a hand of a category starts from.
    pub fn base(hand: &PokerHand) -> (s: Sorce)
        ensures
            s.wf(),
            s@ == start(*hand),
            s.card_chips == hand.base().0,
    {
        let (chips, mult) = hand.hand_value();
        Sorce { card_chips: chips, total_chips: chips, mult_num: mult, mult_den: 1 }
    }

    /// Applies one effect. There is no result where the new score cannot
    /// be held in 128-bit numbers.
    pub fn apply(&self, e: Effect) -> (r: Option<Sorce>)
        ensures
            r is Some <==> fits(apply(self@, e)),
            r is Some ==> r->0@ == apply(self@, e) && r->0.card_chips == self.card_chips,
            r is Some && self.wf() ==> r->0.wf(),
    {
        match e {
            Effect::AddChips(n) => {
                match self.total_chips.checked_add(n) {
                    Some(chips) => Some(Sorce { total_chips: chips, ..*self }),
                    None => None,
                }
            },
            Effect::AddMult(n) => {
                match n.checked_mul(self.mult_den) {
                    Some(more) => match self.mult_num.checked_add(more) {
                        Some(num) => Some(Sorce { mult_num: num, ..*self }),
                        None => None,
                    },
                    None => None,
                }
            },
            Effect::DoubleMult => {
                match self.mult_num.checked_mul(2) {
                    Some(num) => Some(Sorce { mult_num: num, ..*self }),
                    None => None,
                }
            },
            Effect::TripleMult => {
                match self.mult_num.checked_mul(3) {
                    Some(num) => Some(Sorce { mult_num: num, ..*self }),
                    None => None,
                }
            },
            Effect::HalfAgainMult => {
                match self.mult_num.checked_mul(3) {
                    Some(num) => match self.mult_den.checked_mul(2) {
                        Some(den) => Some(Sorce { mult_num: num, mult_den: den, ..*self }),
                        None => None,
                    },
                    None => None,
                }
            },
        }
    }

    /// Applies a list of effects from the first to the last. There is no
    /// result where the final score cannot be held in 128-bit numbers.
    pub fn run(&self, effects: &Vec<Effect>) -> (r: Option<Sorce>)
        ensures
            r is Some <==> fits(run(self@, effects@)),
            r is Some ==> r->0@ == run(self@, effects@) && r->0.card_chips == self.card_chips,
            r is Some && self.wf() ==> r->0.wf(),
    {
        let mut cur = *self;
        let mut i: usize = 0;
        assert(effects@.take(0) =~= Seq::<Effect>::empty());
        while i < effects.len()
            invariant
                i <= effects.len(),
                cur@ == run(self@, effects@.take(i as int)),
                cur.card_chips == self.card_chips,
                self.wf() ==> cur.wf(),
            decreases effects.len() - i,
        {
            proof {
                assert(effects@.take(i + 1).drop_last() =~= effects@.take(i as int));
                assert(effects@.take(i + 1).last() == effects@[i as int]);
            }
            match cur.apply(effects[i]) {
                Some(next) => {
                    cur = next;
                },
                None => {
                    proof {
                        lemma_run_grows(self@, effects@, i + 1);
                    }
                    return None;
                },
            }
            i += 1;
        }
        assert(effects@.take(effects.len() as int) =~= effects@);
        Some(cur)
    }

    /// Scores a round: the category's base values, then every effect of
    /// the round in order. There is no result where the final score
    /// cannot be held in 128-bit numbers.
    pub fn get_card(hand: HandJoker) -> (r: Option<Sorce>)
        ensures
            r is Some <==> fits(hand.score()),
            r is Some ==> r->0@ == hand.score() && r->0.card_chips == hand.hand.base().0,
            r is Some ==> r->0.wf(),
    {
        let effects = hand.effects();
        Sorce::base(&hand.hand).run(&effects)
    }

    /// The final score: chips times multiplier, rounded down once, after
    /// the product. There is no result where the product of the chips and
    /// the multiplier's numerator cannot be held in a 128-bit number.
    pub fn total(&self) -> (r: Option<u128>)
        requires
            self.wf(),
        ensures
            r is Some <==> self.total_chips * self.mult_num <= u128::MAX,
            r is Some ==> r->0 == (self.total_chips * self.mult_num) / (self.mult_den as int),
            r is Some ==> r->0 * self.mult_den <= self.total_chips * self.mult_num < (r->0 + 1)
                * self.mult_den,
    {
        match self.total_chips.checked_mul(self.mult_num) {
            Some(product) => {
                let q = product / self.mult_den;
                proof {
                    let p = product as int;
                    let d = self.mult_den as int;
                    vstd::arithmetic::div_mod::lemma_fundamental_div_mod(p, d);
                    vstd::arithmetic::div_mod::lemma_mod_bound(p, d);
                    assert(q * d == d * (p / d)) by (nonlinear_arith)
                        requires
                            q == p / d,
                    ;
                    assert((q + 1) * d == d * (p / d) + d) by (nonlinear_arith)
                        requires
                            q == p / d,
                    ;
                }
                Some(q)
            },
            None => None,
        }
    }
}

/// Scores a round of one to five played cards. There is no result where
/// the final score cannot be held in 128-bit numbers.
pub fn score(cards_played: &[Card], cards_held_in_hand: &[Card], jokers: &[JokerCard]) -> (r:
    Option<Sorce>)
    requires
        1 <= cards_played.len() <= 5,
    ensures
        r is Some <==> fits(round_score(cards_played@, cards_held_in_hand@, jokers@)),
        r is Some ==> r->0@ == round_score(cards_played@, cards_held_in_hand@, jokers@),
        r is Some ==> r->0.card_chips == hand_of(cards_played@).base().0,
        r is Some ==> r->0.wf(),
{
    let hand = HandValue::evaluation(cards_played, cards_held_in_hand, jokers);
    let new_hand = HandJoker::analyze(&hand);
    Sorce::get_card(new_hand)
}

} // verus!
