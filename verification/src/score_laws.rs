//! What holds of every score: effects only ever raise it, the passes
//! follow one another, and the order of the effects counts.

use crate::cards::{Card, JokerCard, PokerHand, Rank};
use crate::sorce::{
    apply, barons_upto, editions_upto, flat_upto, kings_upto, run, score_of, scored_upto, sound,
    start, steel_upto, Effect, Tally,
};
use vstd::arithmetic::power::pow;
use vstd::prelude::*;

verus! {

/// An effect never lowers the chips, the numerator or the denominator.
pub proof fn lemma_apply_grows(t: Tally, e: Effect)
    requires
        sound(t),
    ensures
        sound(apply(t, e)),
        t.chips <= apply(t, e).chips,
        t.num <= apply(t, e).num,
        t.den <= apply(t, e).den,
{
    match e {
        Effect::AddMult(n) => {
            assert(0 <= n * t.den) by (nonlinear_arith)
                requires
                    0 <= n,
                    0 <= t.den,
            ;
        },
        _ => {},
    }
}

/// A score never falls below what the first `k` effects made of it.
pub proof fn lemma_run_grows(t: Tally, effects: Seq<Effect>, k: int)
    requires
        sound(t),
        0 <= k <= effects.len(),
    ensures
        sound(run(t, effects)),
        run(t, effects.take(k)).chips <= run(t, effects).chips,
        run(t, effects.take(k)).num <= run(t, effects).num,
        run(t, effects.take(k)).den <= run(t, effects).den,
    decreases effects.len(),
{
    if effects.len() == 0 {
        assert(effects.take(k) =~= effects);
    } else if k == effects.len() {
        assert(effects.take(k) =~= effects);
        lemma_run_grows(t, effects.drop_last(), 0);
        lemma_apply_grows(run(t, effects.drop_last()), effects.last());
    } else {
        lemma_run_grows(t, effects.drop_last(), k);
        assert(effects.drop_last().take(k) =~= effects.take(k));
        lemma_apply_grows(run(t, effects.drop_last()), effects.last());
    }
}

/// Running two lists one after the other is running their concatenation.
pub proof fn lemma_run_concat(t: Tally, a: Seq<Effect>, b: Seq<Effect>)
    ensures
        run(t, a + b) == run(run(t, a), b),
    decreases b.len(),
{
    if b.len() == 0 {
        assert(a + b =~= a);
    } else {
        lemma_run_concat(t, a, b.drop_last());
        assert((a + b).drop_last() =~= a + b.drop_last());
        assert((a + b).last() == b.last());
    }
}

/// The score of a round is reached in five passes, each starting from
/// what the pass before left: the scored cards, the held cards, the
/// Barons, the jokers' effects on the round, the jokers' editions.
pub proof fn lemma_score_by_passes(
    hand: PokerHand,
    scored: Seq<Card>,
    played: Seq<Card>,
    held: Seq<Card>,
    jokers: Seq<JokerCard>,
    total: nat,
)
    ensures
        ({
            let first = run(start(hand), scored_upto(scored, jokers, scored.len() as int));
            let second = run(first, steel_upto(held, held.len() as int));
            let third = run(second, barons_upto(jokers, held, jokers.len() as int));
            let fourth = run(
                third,
                flat_upto(jokers, played, held, total, jokers.len() as int),
            );
            let fifth = run(fourth, editions_upto(jokers, jokers.len() as int));
            score_of(hand, scored, played, held, jokers, total) == fifth
        }),
{
    let t = start(hand);
    let a = scored_upto(scored, jokers, scored.len() as int);
    let b = steel_upto(held, held.len() as int);
    let c = barons_upto(jokers, held, jokers.len() as int);
    let d = flat_upto(jokers, played, held, total, jokers.len() as int);
    let e = editions_upto(jokers, jokers.len() as int);
    lemma_run_concat(t, a, b);
    lemma_run_concat(t, a + b, c);
    lemma_run_concat(t, a + b + c, d);
    lemma_run_concat(t, a + b + c + d, e);
}

/// What a Baron does: as many kings as are held, so many times the
/// multiplier is taken times 1.5, which is the multiplier times 1.5 to the
/// power of that number.
pub proof fn lemma_baron_is_a_power(t: Tally, held: Seq<Card>, n: int)
    requires
        0 <= n <= held.len(),
    ensures
        ({
            let kings = kings_upto(held, n).len();
            run(t, kings_upto(held, n)) == (Tally {
                chips: t.chips,
                num: t.num * pow(3, kings),
                den: t.den * pow(2, kings),
            })
        }),
    decreases n,
{
    reveal(pow);
    if n > 0 {
        lemma_baron_is_a_power(t, held, n - 1);
        let before = kings_upto(held, n - 1);
        let now = kings_upto(held, n);
        if held[n - 1].rank == Rank::King {
            assert(now =~= before.push(Effect::HalfAgainMult));
            assert(now.drop_last() =~= before);
            let k = before.len();
            assert(pow(3, (k + 1) as nat) == 3 * pow(3, k));
            assert(pow(2, (k + 1) as nat) == 2 * pow(2, k));
            assert((t.num * pow(3, k)) * 3 == t.num * (3 * pow(3, k))) by (nonlinear_arith);
            assert((t.den * pow(2, k)) * 2 == t.den * (2 * pow(2, k))) by (nonlinear_arith);
        } else {
            assert(now =~= before);
        }
    } else {
        assert(t.num * 1 == t.num);
    }
}

/// Adding to the multiplier and then doubling it gives another multiplier
/// than doubling it and then adding: the order of the effects counts.
pub proof fn lemma_order_counts(t: Tally, n: u128)
    requires
        t.den > 0,
        n > 0,
    ensures
        ({
            let a = run(t, seq![Effect::AddMult(n), Effect::DoubleMult]);
            let b = run(t, seq![Effect::DoubleMult, Effect::AddMult(n)]);
            a.num * b.den - b.num * a.den == n * t.den * t.den && a.num * b.den != b.num * a.den
        }),
{
    let ab = seq![Effect::AddMult(n), Effect::DoubleMult];
    let ba = seq![Effect::DoubleMult, Effect::AddMult(n)];
    assert(ab.drop_last() =~= seq![Effect::AddMult(n)]);
    assert(ba.drop_last() =~= seq![Effect::DoubleMult]);
    assert(ab.drop_last().drop_last() =~= Seq::<Effect>::empty());
    assert(ba.drop_last().drop_last() =~= Seq::<Effect>::empty());
    reveal_with_fuel(run, 3);
    let a = run(t, ab);
    let b = run(t, ba);
    assert(a.num == (t.num + n * t.den) * 2);
    assert(b.num == t.num * 2 + n * t.den);
    assert(a.den == t.den && b.den == t.den);
    assert(a.num * b.den - b.num * a.den == n * t.den * t.den) by (nonlinear_arith)
        requires
            a.num == (t.num + n * t.den) * 2,
            b.num == t.num * 2 + n * t.den,
            a.den == t.den,
            b.den == t.den,
    ;
    assert(n * t.den * t.den > 0) by (nonlinear_arith)
        requires
            n > 0,
            t.den > 0,
    ;
}

} // verus!
