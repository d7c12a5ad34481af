use ortalab::cards::{Card, Enhancement, Joker, JokerCard, PokerHand, Rank, Suit};
use ortalab::jokers::HandJoker;
use ortalab::pokerhand::HandValue;

fn card(rank: Rank, suit: Suit) -> Card {
    Card::new(rank, suit, None, None)
}

fn active(played: &[Card], jokers: &[Joker]) -> Vec<Joker> {
    let owned: Vec<JokerCard> = jokers.iter().map(|j| JokerCard::new(*j, None)).collect();
    let value = HandValue::evaluation(played, &[], &owned);
    let hand = HandJoker::analyze(&value);
    assert_eq!(hand.total_joker_number, jokers.len());
    hand.work_joker_cards_in_hand.iter().map(|j| j.joker).collect()
}

fn shape_jokers() -> Vec<Joker> {
    vec![
        Joker::Joker,
        Joker::JollyJoker,
        Joker::ZanyJoker,
        Joker::MadJoker,
        Joker::CrazyJoker,
        Joker::DrollJoker,
        Joker::SlyJoker,
        Joker::WilyJoker,
        Joker::CleverJoker,
        Joker::DeviousJoker,
        Joker::CraftyJoker,
        Joker::AbstractJoker,
    ]
}

#[test]
fn high_card_activates_only_the_unconditional_jokers() {
    let played = [card(Rank::Six, Suit::Spades), card(Rank::Two, Suit::Hearts)];
    assert_eq!(active(&played, &shape_jokers()), vec![Joker::Joker, Joker::AbstractJoker]);
}

#[test]
fn pair_activates_the_pair_jokers() {
    let played = [
        card(Rank::Six, Suit::Spades),
        card(Rank::Six, Suit::Hearts),
        card(Rank::Two, Suit::Hearts),
    ];
    assert_eq!(
        active(&played, &shape_jokers()),
        vec![Joker::Joker, Joker::JollyJoker, Joker::SlyJoker, Joker::AbstractJoker]
    );
}

#[test]
fn two_pair_with_a_kicker_activates_the_two_pair_jokers() {
    let played = [
        card(Rank::Six, Suit::Spades),
        card(Rank::Six, Suit::Hearts),
        card(Rank::Two, Suit::Hearts),
        card(Rank::Nine, Suit::Hearts),
        card(Rank::Nine, Suit::Clubs),
    ];
    assert_eq!(
        active(&played, &shape_jokers()),
        vec![
            Joker::Joker,
            Joker::JollyJoker,
            Joker::MadJoker,
            Joker::SlyJoker,
            Joker::CleverJoker,
            Joker::AbstractJoker
        ]
    );
}

#[test]
fn full_house_activates_pair_and_triple_jokers_but_not_two_pair() {
    let played = [
        card(Rank::Six, Suit::Spades),
        card(Rank::Six, Suit::Hearts),
        card(Rank::Nine, Suit::Diamonds),
        card(Rank::Nine, Suit::Hearts),
        card(Rank::Nine, Suit::Clubs),
    ];
    assert_eq!(
        active(&played, &shape_jokers()),
        vec![
            Joker::Joker,
            Joker::JollyJoker,
            Joker::ZanyJoker,
            Joker::SlyJoker,
            Joker::WilyJoker,
            Joker::AbstractJoker
        ]
    );
}

#[test]
fn straight_flush_activates_straight_and_flush_jokers() {
    let played = [
        card(Rank::Six, Suit::Spades),
        card(Rank::Seven, Suit::Spades),
        card(Rank::Eight, Suit::Spades),
        card(Rank::Nine, Suit::Spades),
        card(Rank::Ten, Suit::Spades),
    ];
    assert_eq!(
        active(&played, &shape_jokers()),
        vec![
            Joker::Joker,
            Joker::CrazyJoker,
            Joker::DrollJoker,
            Joker::DeviousJoker,
            Joker::CraftyJoker,
            Joker::AbstractJoker
        ]
    );
}

#[test]
fn flush_jokers_go_by_the_played_cards_not_the_scored_ones() {
    // Four kings are scored; the two of hearts breaks the flush of the
    // played cards.
    let wild_king = Card::new(Rank::King, Suit::Spades, Some(Enhancement::Wild), None);
    let played = [
        wild_king,
        wild_king,
        wild_king,
        card(Rank::King, Suit::Spades),
        card(Rank::Two, Suit::Hearts),
    ];
    let value = HandValue::evaluation(&played, &[], &[]);
    assert_eq!(value.hand, PokerHand::FourOfAKind);
    assert!(HandValue::is_flush(&value.cards_impl));
    assert_eq!(active(&played, &[Joker::DrollJoker, Joker::CraftyJoker]), vec![]);
}

#[test]
fn jokers_that_look_at_single_cards_are_always_active() {
    let played = [card(Rank::Six, Suit::Spades)];
    let jokers = [
        Joker::RaisedFist,
        Joker::Blackboard,
        Joker::Baron,
        Joker::GreedyJoker,
        Joker::LustyJoker,
        Joker::WrathfulJoker,
        Joker::GluttonousJoker,
        Joker::Fibonacci,
        Joker::ScaryFace,
        Joker::EvenSteven,
        Joker::OddTodd,
        Joker::Photograph,
        Joker::SmileyFace,
        Joker::FlowerPot,
        Joker::Mime,
    ];
    assert_eq!(active(&played, &jokers), jokers.to_vec());
}

#[test]
fn is_joker_work_reads_the_category() {
    let played = [
        card(Rank::Six, Suit::Spades),
        card(Rank::Seven, Suit::Hearts),
        card(Rank::Eight, Suit::Spades),
        card(Rank::Nine, Suit::Spades),
        card(Rank::Ten, Suit::Spades),
    ];
    let hand = HandJoker::analyze(&HandValue::evaluation(&played, &[], &[]));
    assert_eq!(hand.hand, PokerHand::Straight);
    assert!(HandJoker::is_joker_work(&Joker::CrazyJoker, &hand));
    assert!(!HandJoker::is_joker_work(&Joker::DrollJoker, &hand));
    assert!(!HandJoker::is_joker_work(&Joker::JollyJoker, &hand));
}
