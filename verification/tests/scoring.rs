use ortalab::cards::{Card, Edition, Enhancement, Joker, JokerCard, PokerHand, Rank, Suit};
use ortalab::jokers::HandJoker;
use ortalab::pokerhand::HandValue;
use ortalab::sorce::{score, Effect, Sorce};

fn card(rank: Rank, suit: Suit) -> Card {
    Card::new(rank, suit, None, None)
}

fn enhanced(rank: Rank, suit: Suit, enhancement: Enhancement) -> Card {
    Card::new(rank, suit, Some(enhancement), None)
}

fn joker(joker: Joker) -> JokerCard {
    JokerCard::new(joker, None)
}

/// Chips, numerator and denominator of the multiplier.
fn scored(played: &[Card], held: &[Card], jokers: &[JokerCard]) -> (u128, u128, u128) {
    let s = score(played, held, jokers).unwrap();
    (s.total_chips, s.mult_num, s.mult_den)
}

fn diamonds() -> [Card; 5] {
    [
        card(Rank::Two, Suit::Diamonds),
        card(Rank::Four, Suit::Diamonds),
        card(Rank::Six, Suit::Diamonds),
        card(Rank::Eight, Suit::Diamonds),
        card(Rank::Ten, Suit::Diamonds),
    ]
}

#[test]
fn four_kings_and_a_two() {
    let played = [
        card(Rank::King, Suit::Spades),
        card(Rank::King, Suit::Hearts),
        card(Rank::King, Suit::Clubs),
        card(Rank::King, Suit::Diamonds),
        card(Rank::Two, Suit::Hearts),
    ];
    let s = score(&played, &[], &[]).unwrap();
    assert_eq!(s.card_chips, 60);
    assert_eq!(s.total_chips, 60 + 4 * 13);
    assert_eq!((s.mult_num, s.mult_den), (7, 1));
    assert_eq!(s.total(), Some(784));
}

#[test]
fn single_ace_with_bonus() {
    let hand = HandJoker {
        hand: PokerHand::HighCard,
        cards_impl: vec![enhanced(Rank::Ace, Suit::Spades, Enhancement::Bonus)],
        cards_played: vec![enhanced(Rank::Ace, Suit::Spades, Enhancement::Bonus)],
        cards_hold_in_hand: vec![],
        work_joker_cards_in_hand: vec![],
        total_joker_number: 0,
    };
    let s = Sorce::get_card(hand).unwrap();
    assert_eq!(s.card_chips, 5);
    assert_eq!(s.total_chips, 5 + 14 + 30);
    assert_eq!((s.mult_num, s.mult_den), (1, 1));
}

#[test]
fn diamond_flush_with_a_diamond_joker() {
    let (chips, num, den) = scored(&diamonds(), &[], &[joker(Joker::GreedyJoker)]);
    assert_eq!(chips, 35 + 2 + 4 + 6 + 8 + 10);
    assert_eq!((num, den), (4 + 15, 1));
}

#[test]
fn suit_jokers_match_their_own_suit_only() {
    let jokers = [joker(Joker::LustyJoker), joker(Joker::WrathfulJoker), joker(Joker::GluttonousJoker)];
    assert_eq!(scored(&diamonds(), &[], &jokers).1, 4);
    let played = [
        card(Rank::Two, Suit::Hearts),
        card(Rank::Four, Suit::Spades),
        card(Rank::Four, Suit::Clubs),
        card(Rank::Two, Suit::Clubs),
    ];
    // Two pair: 2 + one heart, one spade, two clubs.
    assert_eq!(scored(&played, &[], &jokers).1, 2 + 3 + 3 + 6);
}

#[test]
fn adding_then_doubling_differs_from_doubling_then_adding() {
    let start = Sorce::base(&PokerHand::Pair);
    let a = start.run(&vec![Effect::AddMult(10), Effect::DoubleMult]).unwrap();
    let b = start.run(&vec![Effect::DoubleMult, Effect::AddMult(10)]).unwrap();
    assert_eq!((a.mult_num, a.mult_den), (24, 1));
    assert_eq!((b.mult_num, b.mult_den), (14, 1));
}

#[test]
fn passes_apply_in_their_order() {
    // Mult card (+4), then held Steel (x1.5), then Joker (+4), then the
    // joker's Polychrome (x1.5): ((1 + 4) * 1.5 + 4) * 1.5 = 17.25.
    let played = [enhanced(Rank::Seven, Suit::Spades, Enhancement::Mult), card(Rank::Two, Suit::Hearts)];
    let held = [enhanced(Rank::Three, Suit::Hearts, Enhancement::Steel)];
    let jokers = [JokerCard::new(Joker::Joker, Some(Edition::Polychrome))];
    let s = score(&played, &held, &jokers).unwrap();
    assert_eq!(s.total_chips, 5 + 7);
    assert_eq!((s.mult_num, s.mult_den), (69, 4));
    assert_eq!(s.total(), Some(207));
}

#[test]
fn effects_are_listed_in_order() {
    let played = [Card::new(Rank::Queen, Suit::Hearts, Some(Enhancement::Glass), Some(Edition::Foil))];
    let held = [
        enhanced(Rank::King, Suit::Clubs, Enhancement::Steel),
        card(Rank::Five, Suit::Spades),
    ];
    let jokers = [
        JokerCard::new(Joker::Baron, Some(Edition::Holographic)),
        joker(Joker::ScaryFace),
        joker(Joker::RaisedFist),
    ];
    let hand = HandJoker::analyze(&HandValue::evaluation(&played, &held, &jokers));
    assert_eq!(
        hand.effects(),
        vec![
            Effect::AddChips(12),
            Effect::DoubleMult,
            Effect::AddChips(50),
            Effect::AddChips(30),
            Effect::HalfAgainMult,
            Effect::HalfAgainMult,
            Effect::AddMult(10),
            Effect::AddMult(10),
        ]
    );
}

#[test]
fn enhancements_of_scored_cards() {
    let pair = |e| [enhanced(Rank::Nine, Suit::Spades, e), card(Rank::Nine, Suit::Hearts)];
    assert_eq!(scored(&pair(Enhancement::Bonus), &[], &[]), (10 + 18 + 30, 2, 1));
    assert_eq!(scored(&pair(Enhancement::Mult), &[], &[]), (10 + 18, 6, 1));
    assert_eq!(scored(&pair(Enhancement::Glass), &[], &[]), (10 + 18, 4, 1));
    assert_eq!(scored(&pair(Enhancement::Steel), &[], &[]), (10 + 18, 2, 1));
    // A wild nine beside a nine of hearts: a flush of one rank.
    assert_eq!(scored(&pair(Enhancement::Wild), &[], &[]), (160 + 18, 16, 1));
}

#[test]
fn editions_of_scored_cards() {
    let pair = |e| [Card::new(Rank::Nine, Suit::Spades, None, Some(e)), card(Rank::Nine, Suit::Hearts)];
    assert_eq!(scored(&pair(Edition::Foil), &[], &[]), (10 + 18 + 50, 2, 1));
    assert_eq!(scored(&pair(Edition::Holographic), &[], &[]), (10 + 18, 12, 1));
    assert_eq!(scored(&pair(Edition::Polychrome), &[], &[]), (10 + 18, 6, 2));
}

#[test]
fn editions_of_jokers() {
    let played = [card(Rank::Nine, Suit::Spades), card(Rank::Nine, Suit::Hearts)];
    let with = |e| [JokerCard::new(Joker::Mime, Some(e))];
    assert_eq!(scored(&played, &[], &with(Edition::Foil)), (10 + 18 + 50, 2, 1));
    assert_eq!(scored(&played, &[], &with(Edition::Holographic)), (10 + 18, 12, 1));
    assert_eq!(scored(&played, &[], &with(Edition::Polychrome)), (10 + 18, 6, 2));
}

#[test]
fn an_inactive_joker_keeps_its_edition_out() {
    let played = [card(Rank::Nine, Suit::Spades), card(Rank::Three, Suit::Hearts)];
    let jokers = [JokerCard::new(Joker::JollyJoker, Some(Edition::Foil))];
    assert_eq!(scored(&played, &[], &jokers), (5 + 9, 1, 1));
}

#[test]
fn only_scored_cards_count_for_card_jokers() {
    // Pair of nines scored; the jack is played but not scored.
    let played = [
        card(Rank::Nine, Suit::Spades),
        card(Rank::Nine, Suit::Hearts),
        card(Rank::Jack, Suit::Hearts),
    ];
    let jokers = [joker(Joker::ScaryFace), joker(Joker::SmileyFace), joker(Joker::Photograph)];
    assert_eq!(scored(&played, &[], &jokers), (10 + 18, 2, 1));
}

#[test]
fn rank_jokers() {
    let played = [card(Rank::Eight, Suit::Spades), card(Rank::Eight, Suit::Hearts)];
    assert_eq!(scored(&played, &[], &[joker(Joker::Fibonacci)]).1, 2 + 16);
    assert_eq!(scored(&played, &[], &[joker(Joker::EvenSteven)]).1, 2 + 8);
    assert_eq!(scored(&played, &[], &[joker(Joker::OddTodd)]).1, 2);
    let played = [card(Rank::Jack, Suit::Spades), card(Rank::Jack, Suit::Hearts)];
    assert_eq!(scored(&played, &[], &[joker(Joker::Fibonacci)]).1, 2 + 16);
    assert_eq!(scored(&played, &[], &[joker(Joker::OddTodd)]).1, 2 + 8);
    assert_eq!(scored(&played, &[], &[joker(Joker::EvenSteven)]).1, 2);
    let played = [card(Rank::Ace, Suit::Spades), card(Rank::Ace, Suit::Hearts)];
    assert_eq!(scored(&played, &[], &[joker(Joker::Fibonacci), joker(Joker::OddTodd)]).1, 2);
}

#[test]
fn face_jokers() {
    let played = [card(Rank::Queen, Suit::Spades), card(Rank::Queen, Suit::Hearts)];
    assert_eq!(scored(&played, &[], &[joker(Joker::ScaryFace)]), (10 + 24 + 60, 2, 1));
    assert_eq!(scored(&played, &[], &[joker(Joker::SmileyFace)]), (10 + 24, 12, 1));
}

#[test]
fn photograph_doubles_once_a_round() {
    let played = [
        card(Rank::Nine, Suit::Spades),
        card(Rank::King, Suit::Hearts),
        card(Rank::King, Suit::Spades),
        card(Rank::Nine, Suit::Hearts),
    ];
    assert_eq!(scored(&played, &[], &[joker(Joker::Photograph)]).1, 4);
    assert_eq!(scored(&played, &[], &[joker(Joker::Photograph), joker(Joker::Photograph)]).1, 4);
    // The doubling comes at the first king: before the second king's +5.
    let jokers = [joker(Joker::SmileyFace), joker(Joker::Photograph)];
    assert_eq!(scored(&played, &[], &jokers).1, (2 + 5) * 2 + 5);
}

#[test]
fn steel_cards_in_hand_multiply_once_each() {
    let played = [card(Rank::Nine, Suit::Spades), card(Rank::Nine, Suit::Hearts)];
    let held = [
        enhanced(Rank::Two, Suit::Spades, Enhancement::Steel),
        card(Rank::Three, Suit::Spades),
        enhanced(Rank::Four, Suit::Spades, Enhancement::Steel),
    ];
    assert_eq!(scored(&played, &held, &[]), (28, 18, 4));
}

#[test]
fn baron_multiplies_for_every_king_in_hand() {
    let played = [card(Rank::Nine, Suit::Spades), card(Rank::Nine, Suit::Hearts)];
    let held = [
        card(Rank::King, Suit::Spades),
        card(Rank::Three, Suit::Spades),
        card(Rank::King, Suit::Hearts),
    ];
    assert_eq!(scored(&played, &held, &[joker(Joker::Baron)]), (28, 18, 4));
    assert_eq!(scored(&played, &[], &[joker(Joker::Baron)]), (28, 2, 1));
    assert_eq!(scored(&played, &held, &[joker(Joker::Baron), joker(Joker::Baron)]), (28, 162, 16));
}

#[test]
fn flat_jokers() {
    let played = [
        card(Rank::Six, Suit::Spades),
        card(Rank::Six, Suit::Hearts),
        card(Rank::Nine, Suit::Hearts),
        card(Rank::Nine, Suit::Clubs),
    ];
    let base = (20 + 30, 2, 1);
    let with = |j| scored(&played, &[], &[joker(j)]);
    assert_eq!(with(Joker::Joker), (base.0, 2 + 4, 1));
    assert_eq!(with(Joker::JollyJoker), (base.0, 2 + 8, 1));
    assert_eq!(with(Joker::MadJoker), (base.0, 2 + 10, 1));
    assert_eq!(with(Joker::SlyJoker), (base.0 + 50, 2, 1));
    assert_eq!(with(Joker::CleverJoker), (base.0 + 80, 2, 1));
    assert_eq!(with(Joker::ZanyJoker), base);
    assert_eq!(with(Joker::Blueprint), base);
    let straight_flush = [
        card(Rank::Six, Suit::Spades),
        card(Rank::Seven, Suit::Spades),
        card(Rank::Eight, Suit::Spades),
        card(Rank::Nine, Suit::Spades),
        card(Rank::Ten, Suit::Spades),
    ];
    let with = |j| scored(&straight_flush, &[], &[joker(j)]);
    assert_eq!(with(Joker::CrazyJoker), (140, 8 + 12, 1));
    assert_eq!(with(Joker::DrollJoker), (140, 8 + 10, 1));
    assert_eq!(with(Joker::DeviousJoker), (140 + 100, 8, 1));
    assert_eq!(with(Joker::CraftyJoker), (140 + 80, 8, 1));
    let triple = [
        card(Rank::Six, Suit::Spades),
        card(Rank::Six, Suit::Hearts),
        card(Rank::Six, Suit::Clubs),
    ];
    let with = |j| scored(&triple, &[], &[joker(j)]);
    assert_eq!(with(Joker::ZanyJoker), (30 + 18, 3 + 12, 1));
    assert_eq!(with(Joker::WilyJoker), (30 + 18 + 100, 3, 1));
}

#[test]
fn abstract_joker_counts_every_owned_joker() {
    let played = [card(Rank::Six, Suit::Spades), card(Rank::Two, Suit::Hearts)];
    let jokers = [joker(Joker::AbstractJoker), joker(Joker::JollyJoker), joker(Joker::ZanyJoker)];
    assert_eq!(scored(&played, &[], &jokers), (5 + 6, 1 + 9, 1));
}

#[test]
fn raised_fist_reads_the_last_held_card() {
    let played = [card(Rank::Six, Suit::Spades), card(Rank::Two, Suit::Hearts)];
    let held = [card(Rank::Ace, Suit::Spades), card(Rank::Seven, Suit::Hearts)];
    assert_eq!(scored(&played, &held, &[joker(Joker::RaisedFist)]), (11, 1 + 14, 1));
    assert_eq!(scored(&played, &[], &[joker(Joker::RaisedFist)]), (11, 1, 1));
}

#[test]
fn blackboard_wants_black_cards_in_hand() {
    let played = [card(Rank::Six, Suit::Spades), card(Rank::Two, Suit::Hearts)];
    let black = [card(Rank::Ace, Suit::Spades), card(Rank::Seven, Suit::Clubs)];
    let mixed = [card(Rank::Ace, Suit::Spades), card(Rank::Seven, Suit::Diamonds)];
    assert_eq!(scored(&played, &black, &[joker(Joker::Blackboard)]), (11, 3, 1));
    assert_eq!(scored(&played, &mixed, &[joker(Joker::Blackboard)]), (11, 1, 1));
    assert_eq!(scored(&played, &[], &[joker(Joker::Blackboard)]), (11, 3, 1));
}

#[test]
fn flower_pot_wants_all_four_suits_played() {
    let four = [
        card(Rank::Six, Suit::Spades),
        card(Rank::Two, Suit::Hearts),
        card(Rank::Nine, Suit::Clubs),
        card(Rank::Jack, Suit::Diamonds),
    ];
    assert_eq!(scored(&four, &[], &[joker(Joker::FlowerPot)]), (5 + 11, 3, 1));
    let three = [
        card(Rank::Six, Suit::Spades),
        card(Rank::Two, Suit::Hearts),
        card(Rank::Nine, Suit::Clubs),
        card(Rank::Jack, Suit::Clubs),
    ];
    assert_eq!(scored(&three, &[], &[joker(Joker::FlowerPot)]), (5 + 11, 1, 1));
    let with_wild = [
        card(Rank::Six, Suit::Spades),
        card(Rank::Two, Suit::Hearts),
        card(Rank::Nine, Suit::Clubs),
        enhanced(Rank::Jack, Suit::Clubs, Enhancement::Wild),
    ];
    assert_eq!(scored(&with_wild, &[], &[joker(Joker::FlowerPot)]), (5 + 11, 3, 1));
}

#[test]
fn final_score_is_rounded_down_once() {
    let s = Sorce { card_chips: 35, total_chips: 35, mult_num: 3, mult_den: 2 };
    assert_eq!(s.total(), Some(52));
    let s = Sorce { card_chips: 5, total_chips: 7, mult_num: 27, mult_den: 8 };
    assert_eq!(s.total(), Some(23));
    let s = Sorce { card_chips: 5, total_chips: u128::MAX, mult_num: 2, mult_den: 1 };
    assert_eq!(s.total(), None);
}

#[test]
fn a_score_too_large_has_no_result() {
    let played = [card(Rank::Six, Suit::Spades)];
    let held = vec![enhanced(Rank::Two, Suit::Spades, Enhancement::Steel); 100];
    assert_eq!(score(&played, &held, &[]), None);
    let held = vec![enhanced(Rank::Two, Suit::Spades, Enhancement::Steel); 70];
    let s = score(&played, &held, &[]).unwrap();
    assert_eq!(s.mult_den, 1u128 << 70);
    assert_eq!(s.mult_num, 16 * 3u128.pow(70));
}

#[test]
fn apply_one_effect() {
    let s = Sorce { card_chips: 5, total_chips: 7, mult_num: 3, mult_den: 2 };
    assert_eq!(s.apply(Effect::AddChips(4)), Some(Sorce { total_chips: 11, ..s }));
    assert_eq!(s.apply(Effect::AddMult(4)), Some(Sorce { mult_num: 11, ..s }));
    assert_eq!(s.apply(Effect::DoubleMult), Some(Sorce { mult_num: 6, ..s }));
    assert_eq!(s.apply(Effect::TripleMult), Some(Sorce { mult_num: 9, ..s }));
    assert_eq!(s.apply(Effect::HalfAgainMult), Some(Sorce { mult_num: 9, mult_den: 4, ..s }));
    assert_eq!(s.apply(Effect::AddChips(u128::MAX)), None);
    assert_eq!(s.apply(Effect::AddMult(u128::MAX)), None);
}

#[test]
fn base_values_are_those_of_the_game() {
    let hands = [
        (PokerHand::HighCard, ortalib::PokerHand::HighCard),
        (PokerHand::Pair, ortalib::PokerHand::Pair),
        (PokerHand::TwoPair, ortalib::PokerHand::TwoPair),
        (PokerHand::ThreeOfAKind, ortalib::PokerHand::ThreeOfAKind),
        (PokerHand::Straight, ortalib::PokerHand::Straight),
        (PokerHand::Flush, ortalib::PokerHand::Flush),
        (PokerHand::FullHouse, ortalib::PokerHand::FullHouse),
        (PokerHand::FourOfAKind, ortalib::PokerHand::FourOfAKind),
        (PokerHand::StraightFlush, ortalib::PokerHand::StraightFlush),
        (PokerHand::FiveOfAKind, ortalib::PokerHand::FiveOfAKind),
        (PokerHand::FlushHouse, ortalib::PokerHand::FlushHouse),
        (PokerHand::FlushFive, ortalib::PokerHand::FlushFive),
    ];
    for (own, outside) in hands {
        let (chips, mult) = own.hand_value();
        let (outside_chips, outside_mult) = outside.hand_value();
        assert_eq!(chips as f64, outside_chips);
        assert_eq!(mult as f64, outside_mult);
    }
}
