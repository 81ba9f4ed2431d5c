use ortalib_scoring::card::{
    get_base_score, rank_to_order, Card, Edition, Enhancement, Joker, JokerCard, PokerHand, Rank,
    Round, Suit,
};
use ortalib_scoring::counts::summarize;
use ortalib_scoring::effects::{Factor, ScoreOp};
use ortalib_scoring::hands::{
    find_best_hand, find_consecutive_sequence, get_flush_cards, get_high_card, get_pair_cards,
    get_straight_cards, get_straight_flush_cards, get_two_pair_cards,
};
use ortalib_scoring::jokers::{
    apply_blueprint_jokers, get_joker_activation, set_joker_effects, JokerActivation,
    JokerEffectFlags,
};
use ortalib_scoring::scorer::{calculate_score, Scoring};

fn c(rank: Rank, suit: Suit) -> Card {
    Card::new(rank, suit, None, None)
}

fn enhanced(rank: Rank, suit: Suit, e: Enhancement) -> Card {
    Card::new(rank, suit, Some(e), None)
}

fn with_edition(rank: Rank, suit: Suit, e: Edition) -> Card {
    Card::new(rank, suit, None, Some(e))
}

fn j(joker: Joker) -> JokerCard {
    JokerCard::new(joker, None)
}

fn no_flags() -> JokerEffectFlags {
    JokerEffectFlags {
        four_fingers: false,
        shortcut: false,
        pareidolia: false,
        splash: false,
        smeared_joker: false,
    }
}

fn total(s: &Scoring) -> (f64, f64) {
    let mut chips = s.base_chips as f64;
    let mut mult = s.base_mult as f64;
    for op in &s.ops {
        match op {
            ScoreOp::AddChips(n) => chips += *n as f64,
            ScoreOp::AddMult(n) => mult += *n as f64,
            ScoreOp::TimesMult(Factor::ThreeHalves) => mult *= 1.5,
            ScoreOp::TimesMult(Factor::Two) => mult *= 2.0,
            ScoreOp::TimesMult(Factor::Three) => mult *= 3.0,
        }
    }
    (chips, mult)
}

fn score(played: Vec<Card>, held: Vec<Card>, jokers: Vec<JokerCard>) -> Scoring {
    calculate_score(Round { cards_played: played, cards_held_in_hand: held, jokers })
}

fn best(played: &Vec<Card>, jokers: &Vec<JokerCard>) -> (PokerHand, Vec<Card>) {
    let counts = summarize(played);
    let flags = set_joker_effects(jokers);
    find_best_hand(played, &counts, &flags)
}

#[test]
fn base_scores_follow_the_table() {
    let table = [
        (PokerHand::HighCard, 5, 1),
        (PokerHand::Pair, 10, 2),
        (PokerHand::TwoPair, 20, 2),
        (PokerHand::ThreeOfAKind, 30, 3),
        (PokerHand::Straight, 30, 4),
        (PokerHand::Flush, 35, 4),
        (PokerHand::FullHouse, 40, 4),
        (PokerHand::FourOfAKind, 60, 7),
        (PokerHand::StraightFlush, 100, 8),
        (PokerHand::FiveOfAKind, 120, 12),
        (PokerHand::FlushHouse, 140, 14),
        (PokerHand::FlushFive, 160, 16),
    ];
    for (hand, chips, mult) in table {
        assert_eq!(get_base_score(hand), (chips, mult));
    }
}

#[test]
fn plain_pair_adds_the_pair_ranks() {
    let s = score(
        vec![c(Rank::Nine, Suit::Hearts), c(Rank::Nine, Suit::Spades), c(Rank::Three, Suit::Clubs)],
        vec![],
        vec![],
    );
    assert_eq!(s.hand, PokerHand::Pair);
    assert_eq!(total(&s), (28.0, 2.0));
}

#[test]
fn end_to_end_two_pair() {
    let s = score(
        vec![
            c(Rank::Two, Suit::Clubs),
            c(Rank::Two, Suit::Diamonds),
            c(Rank::Seven, Suit::Spades),
            c(Rank::Seven, Suit::Hearts),
            c(Rank::King, Suit::Clubs),
        ],
        vec![],
        vec![],
    );
    assert_eq!(s.hand, PokerHand::TwoPair);
    assert_eq!((s.base_chips, s.base_mult), (20, 2));
    assert_eq!(total(&s), (38.0, 2.0));
}

#[test]
fn empty_round_is_a_bare_high_card() {
    let s = score(vec![], vec![], vec![]);
    assert_eq!(s.hand, PokerHand::HighCard);
    assert!(s.ops.is_empty());
    assert_eq!(total(&s), (5.0, 1.0));
}

#[test]
fn full_house_in_one_suit_is_a_flush_house() {
    let played = vec![
        c(Rank::King, Suit::Hearts),
        c(Rank::King, Suit::Hearts),
        c(Rank::King, Suit::Hearts),
        c(Rank::Queen, Suit::Hearts),
        c(Rank::Queen, Suit::Hearts),
    ];
    let (hand, cards) = best(&played, &vec![]);
    assert_eq!(hand, PokerHand::FlushHouse);
    assert_eq!(cards, played);
}

#[test]
fn full_house_in_mixed_suits_stays_a_full_house() {
    let played = vec![
        c(Rank::King, Suit::Hearts),
        c(Rank::King, Suit::Spades),
        c(Rank::King, Suit::Hearts),
        c(Rank::Queen, Suit::Hearts),
        c(Rank::Queen, Suit::Hearts),
    ];
    assert_eq!(best(&played, &vec![]).0, PokerHand::FullHouse);
}

#[test]
fn ace_low_straight() {
    let played = vec![
        c(Rank::Ace, Suit::Hearts),
        c(Rank::Two, Suit::Spades),
        c(Rank::Three, Suit::Clubs),
        c(Rank::Four, Suit::Diamonds),
        c(Rank::Five, Suit::Hearts),
    ];
    let (hand, cards) = best(&played, &vec![]);
    assert_eq!(hand, PokerHand::Straight);
    assert_eq!(cards, played);
}

#[test]
fn shortcut_allows_gaps_of_one_rank() {
    let played = vec![
        c(Rank::Two, Suit::Hearts),
        c(Rank::Four, Suit::Spades),
        c(Rank::Six, Suit::Clubs),
        c(Rank::Eight, Suit::Diamonds),
        c(Rank::Ten, Suit::Hearts),
    ];
    assert_eq!(best(&played, &vec![j(Joker::Shortcut)]).0, PokerHand::Straight);
    let (hand, cards) = best(&played, &vec![]);
    assert_eq!(hand, PokerHand::HighCard);
    assert_eq!(cards, vec![c(Rank::Ten, Suit::Hearts)]);
}

#[test]
fn smeared_joker_merges_suits_of_one_color() {
    let played = vec![
        c(Rank::Two, Suit::Hearts),
        c(Rank::Five, Suit::Diamonds),
        c(Rank::Nine, Suit::Hearts),
        c(Rank::Jack, Suit::Diamonds),
        c(Rank::King, Suit::Hearts),
    ];
    assert_eq!(best(&played, &vec![j(Joker::SmearedJoker)]).0, PokerHand::Flush);
    assert_eq!(best(&played, &vec![]).0, PokerHand::HighCard);
}

#[test]
fn blueprint_copies_the_next_joker_without_edition() {
    let owned = vec![j(Joker::Blueprint), JokerCard::new(Joker::JollyJoker, Some(Edition::Foil))];
    let eff = apply_blueprint_jokers(&owned);
    assert_eq!(eff.len(), 3);
    assert_eq!(
        eff,
        vec![
            j(Joker::Blueprint),
            JokerCard::new(Joker::JollyJoker, None),
            JokerCard::new(Joker::JollyJoker, Some(Edition::Foil)),
        ]
    );
}

#[test]
fn blueprint_chain_and_passive_stop() {
    let eff = apply_blueprint_jokers(&vec![j(Joker::Blueprint), j(Joker::Blueprint), j(Joker::Baron)]);
    assert_eq!(
        eff,
        vec![j(Joker::Blueprint), j(Joker::Baron), j(Joker::Blueprint), j(Joker::Baron), j(Joker::Baron)]
    );
    let stopped = apply_blueprint_jokers(&vec![j(Joker::Blueprint), j(Joker::Splash), j(Joker::Joker)]);
    assert_eq!(stopped, vec![j(Joker::Blueprint), j(Joker::Splash), j(Joker::Joker)]);
    let last = apply_blueprint_jokers(&vec![j(Joker::Joker), j(Joker::Blueprint)]);
    assert_eq!(last, vec![j(Joker::Joker), j(Joker::Blueprint)]);
}

#[test]
fn summarizing_twice_gives_the_same_counts() {
    let played = vec![
        c(Rank::Two, Suit::Clubs),
        enhanced(Rank::Two, Suit::Hearts, Enhancement::Wild),
        c(Rank::Ace, Suit::Spades),
    ];
    let a = summarize(&played);
    let b = summarize(&played);
    assert_eq!(a.rank_count, b.rank_count);
    assert_eq!(a.suit_count, b.suit_count);
    assert_eq!(a.wild_count, b.wild_count);
    assert_eq!(a.rank_count[0], 2);
    assert_eq!(a.rank_count[12], 1);
    assert_eq!(a.suit_count, vec![1, 0, 1, 0]);
    assert_eq!(a.wild_count, 1);
}

#[test]
fn flags_follow_ownership() {
    let flags = set_joker_effects(&vec![j(Joker::Splash), j(Joker::Joker), j(Joker::Splash), j(Joker::FourFingers)]);
    assert!(flags.splash && flags.four_fingers);
    assert!(!flags.shortcut && !flags.pareidolia && !flags.smeared_joker);
}

#[test]
fn activation_classes() {
    assert_eq!(get_joker_activation(&Joker::FlowerPot), JokerActivation::Independent);
    assert_eq!(get_joker_activation(&Joker::SockAndBuskin), JokerActivation::OnScore);
    assert_eq!(get_joker_activation(&Joker::Mime), JokerActivation::OnHeld);
    assert_eq!(get_joker_activation(&Joker::Pareidolia), JokerActivation::Other);
    assert_eq!(get_joker_activation(&Joker::Blueprint), JokerActivation::Copy);
}

#[test]
fn rank_orders() {
    assert_eq!(rank_to_order(&Rank::Ace, false), 14);
    assert_eq!(rank_to_order(&Rank::Ace, true), 1);
    assert_eq!(rank_to_order(&Rank::King, true), 13);
}

#[test]
fn pair_takes_the_lowest_rank() {
    let played = vec![
        c(Rank::Nine, Suit::Hearts),
        c(Rank::Four, Suit::Spades),
        c(Rank::Nine, Suit::Clubs),
        c(Rank::Four, Suit::Hearts),
        c(Rank::Four, Suit::Clubs),
    ];
    let counts = summarize(&played);
    assert_eq!(get_pair_cards(&played, &counts), Some(vec![1, 3]));
    assert_eq!(get_two_pair_cards(&played, &counts), None);
}

#[test]
fn two_pair_lower_pair_first() {
    let played = vec![
        c(Rank::Nine, Suit::Hearts),
        c(Rank::Four, Suit::Spades),
        c(Rank::Nine, Suit::Clubs),
        c(Rank::Four, Suit::Hearts),
    ];
    let counts = summarize(&played);
    assert_eq!(get_two_pair_cards(&played, &counts), Some(vec![1, 3, 0, 2]));
}

#[test]
fn high_card_is_the_last_of_the_highest() {
    let played = vec![c(Rank::King, Suit::Hearts), c(Rank::Two, Suit::Spades), c(Rank::King, Suit::Clubs)];
    assert_eq!(get_high_card(&played), Some(vec![2]));
    assert_eq!(get_high_card(&vec![]), None);
}

#[test]
fn flush_with_wild_cards() {
    let played = vec![
        enhanced(Rank::Two, Suit::Spades, Enhancement::Wild),
        c(Rank::Five, Suit::Hearts),
        c(Rank::Nine, Suit::Hearts),
        enhanced(Rank::Jack, Suit::Clubs, Enhancement::Wild),
        c(Rank::King, Suit::Hearts),
    ];
    let counts = summarize(&played);
    assert_eq!(get_flush_cards(&played, &counts, &no_flags()), Some(vec![0, 1, 2, 3, 4]));
    let all_wild = vec![
        enhanced(Rank::Two, Suit::Spades, Enhancement::Wild),
        enhanced(Rank::Five, Suit::Hearts, Enhancement::Wild),
        enhanced(Rank::Nine, Suit::Hearts, Enhancement::Wild),
        enhanced(Rank::Jack, Suit::Clubs, Enhancement::Wild),
        enhanced(Rank::King, Suit::Diamonds, Enhancement::Wild),
    ];
    let counts = summarize(&all_wild);
    assert_eq!(get_flush_cards(&all_wild, &counts, &no_flags()), Some(vec![0, 1, 2, 3, 4]));
}

#[test]
fn four_fingers_shortens_flush_and_straight() {
    let played = vec![
        c(Rank::Two, Suit::Hearts),
        c(Rank::Three, Suit::Hearts),
        c(Rank::Four, Suit::Hearts),
        c(Rank::Five, Suit::Hearts),
        c(Rank::King, Suit::Spades),
    ];
    let mut flags = no_flags();
    flags.four_fingers = true;
    let counts = summarize(&played);
    assert_eq!(get_flush_cards(&played, &counts, &flags), Some(vec![0, 1, 2, 3]));
    assert_eq!(get_straight_cards(&played, &counts, &flags), Some(vec![0, 1, 2, 3]));
    assert_eq!(get_straight_flush_cards(&played, &counts, &flags), Some(vec![0, 1, 2, 3]));
    let (hand, cards) = best(&played, &vec![j(Joker::FourFingers)]);
    assert_eq!(hand, PokerHand::StraightFlush);
    assert_eq!(cards.len(), 4);
}

#[test]
fn four_fingers_straight_flush_of_different_cards_takes_all() {
    let played = vec![
        c(Rank::Two, Suit::Hearts),
        c(Rank::Three, Suit::Spades),
        c(Rank::Four, Suit::Hearts),
        c(Rank::Five, Suit::Hearts),
        c(Rank::King, Suit::Hearts),
    ];
    let mut flags = no_flags();
    flags.four_fingers = true;
    let counts = summarize(&played);
    assert_eq!(get_straight_flush_cards(&played, &counts, &flags), Some(vec![0, 1, 2, 3, 4]));
}

#[test]
fn consecutive_windows() {
    let played = vec![c(Rank::Ten, Suit::Hearts), c(Rank::Jack, Suit::Spades), c(Rank::Queen, Suit::Hearts),
        c(Rank::King, Suit::Clubs), c(Rank::Ace, Suit::Hearts)];
    let sorted = vec![10, 11, 12, 13, 14];
    assert_eq!(find_consecutive_sequence(&sorted, 5, &played, &no_flags()), Some(vec![0, 1, 2, 3, 4]));
    assert_eq!(find_consecutive_sequence(&vec![10, 11, 13, 14], 4, &played, &no_flags()), None);
}

#[test]
fn five_of_a_kind_and_flush_five() {
    let mixed = vec![
        c(Rank::Ace, Suit::Hearts),
        c(Rank::Ace, Suit::Spades),
        c(Rank::Ace, Suit::Hearts),
        c(Rank::Ace, Suit::Hearts),
        c(Rank::Ace, Suit::Hearts),
    ];
    assert_eq!(best(&mixed, &vec![]).0, PokerHand::FiveOfAKind);
    let same = vec![c(Rank::Ace, Suit::Hearts); 5];
    assert_eq!(best(&same, &vec![]).0, PokerHand::FlushFive);
}

#[test]
fn four_of_a_kind_takes_first_four() {
    let played = vec![
        c(Rank::Six, Suit::Hearts),
        c(Rank::Six, Suit::Spades),
        c(Rank::Six, Suit::Clubs),
        c(Rank::Six, Suit::Diamonds),
        c(Rank::Two, Suit::Hearts),
    ];
    let (hand, cards) = best(&played, &vec![]);
    assert_eq!(hand, PokerHand::FourOfAKind);
    assert_eq!(cards, played[0..4].to_vec());
}

#[test]
fn card_enhancements_and_editions() {
    let s = score(
        vec![
            enhanced(Rank::Ace, Suit::Hearts, Enhancement::Bonus),
            enhanced(Rank::Ace, Suit::Spades, Enhancement::Glass),
        ],
        vec![],
        vec![],
    );
    // Pair (10, 2); Ace 11 + 30; Ace 11, mult x2.
    assert_eq!(total(&s), (62.0, 4.0));
    let s = score(
        vec![with_edition(Rank::Two, Suit::Hearts, Edition::Holographic)],
        vec![],
        vec![],
    );
    assert_eq!(total(&s), (7.0, 11.0));
    let s = score(vec![with_edition(Rank::Two, Suit::Hearts, Edition::Polychrome)], vec![], vec![]);
    assert_eq!(total(&s), (7.0, 1.5));
}

#[test]
fn held_steel_and_baron_with_mime() {
    let s = score(
        vec![c(Rank::Two, Suit::Hearts)],
        vec![enhanced(Rank::King, Suit::Spades, Enhancement::Steel)],
        vec![j(Joker::Baron), j(Joker::Mime)],
    );
    // (7, 1), then twice: x1.5 (steel) x1.5 (baron).
    assert_eq!(total(&s), (7.0, 1.0 * 1.5 * 1.5 * 1.5 * 1.5));
}

#[test]
fn sock_and_buskin_repeats_face_cards() {
    let s = score(
        vec![c(Rank::King, Suit::Hearts)],
        vec![],
        vec![j(Joker::SockAndBuskin), j(Joker::SmileyFace)],
    );
    assert_eq!(total(&s), (25.0, 11.0));
}

#[test]
fn raised_fist_uses_rightmost_lowest() {
    let held = vec![c(Rank::Three, Suit::Hearts), c(Rank::Nine, Suit::Spades), c(Rank::Three, Suit::Clubs)];
    let s = score(vec![c(Rank::Two, Suit::Hearts)], held, vec![j(Joker::RaisedFist)]);
    assert_eq!(total(&s), (7.0, 7.0));
    assert_eq!(s.ops, vec![ScoreOp::AddChips(2), ScoreOp::AddMult(6)]);
}

#[test]
fn photograph_doubles_first_face_only() {
    let s = score(
        vec![c(Rank::King, Suit::Hearts), c(Rank::King, Suit::Spades)],
        vec![],
        vec![j(Joker::Photograph)],
    );
    assert_eq!(total(&s), (30.0, 4.0));
}

#[test]
fn independent_jokers_and_joker_editions() {
    let s = score(
        vec![c(Rank::Two, Suit::Hearts), c(Rank::Two, Suit::Spades)],
        vec![],
        vec![
            JokerCard::new(Joker::JollyJoker, Some(Edition::Polychrome)),
            JokerCard::new(Joker::SlyJoker, Some(Edition::Holographic)),
            j(Joker::AbstractJoker),
        ],
    );
    // Pair (10 + 4, 2); Jolly +8 then x1.5 = 15; Holo +10, Sly +50 chips; Abstract +9.
    assert_eq!(total(&s), (64.0, 34.0));
}

#[test]
fn flower_pot_and_blackboard() {
    let played = vec![
        c(Rank::Two, Suit::Hearts),
        c(Rank::Two, Suit::Spades),
        c(Rank::Two, Suit::Clubs),
        c(Rank::Two, Suit::Diamonds),
    ];
    let s = score(played.clone(), vec![], vec![j(Joker::FlowerPot)]);
    assert_eq!(s.hand, PokerHand::FourOfAKind);
    assert_eq!(total(&s), (68.0, 21.0));
    let s = score(played, vec![c(Rank::Nine, Suit::Clubs)], vec![j(Joker::Blackboard)]);
    assert_eq!(total(&s), (68.0, 21.0));
}

#[test]
fn splash_scores_every_played_card() {
    let played = vec![c(Rank::Two, Suit::Hearts), c(Rank::Two, Suit::Spades), c(Rank::Nine, Suit::Clubs)];
    let s = score(played, vec![], vec![j(Joker::Splash)]);
    assert_eq!(total(&s), (23.0, 2.0));
}

#[test]
fn suit_jokers_respect_smeared() {
    let played = vec![c(Rank::Two, Suit::Hearts)];
    let s = score(played.clone(), vec![], vec![j(Joker::GreedyJoker)]);
    assert_eq!(total(&s), (7.0, 1.0));
    let s = score(played, vec![], vec![j(Joker::GreedyJoker), j(Joker::SmearedJoker)]);
    assert_eq!(total(&s), (7.0, 4.0));
}

#[test]
fn three_of_a_kind_jokers() {
    let played = vec![c(Rank::Five, Suit::Hearts), c(Rank::Five, Suit::Spades), c(Rank::Five, Suit::Clubs)];
    let s = score(played, vec![], vec![j(Joker::ZanyJoker), j(Joker::WilyJoker)]);
    assert_eq!(s.hand, PokerHand::ThreeOfAKind);
    assert_eq!(total(&s), (145.0, 15.0));
}

#[test]
fn two_pair_jokers() {
    let played = vec![
        c(Rank::Three, Suit::Hearts),
        c(Rank::Three, Suit::Spades),
        c(Rank::Four, Suit::Clubs),
        c(Rank::Four, Suit::Diamonds),
    ];
    let s = score(played, vec![], vec![j(Joker::MadJoker), j(Joker::CleverJoker)]);
    assert_eq!(total(&s), (114.0, 12.0));
}

#[test]
fn straight_jokers() {
    let played = vec![
        c(Rank::Two, Suit::Hearts),
        c(Rank::Three, Suit::Spades),
        c(Rank::Four, Suit::Clubs),
        c(Rank::Five, Suit::Diamonds),
        c(Rank::Six, Suit::Hearts),
    ];
    let s = score(played, vec![], vec![j(Joker::CrazyJoker), j(Joker::DeviousJoker)]);
    assert_eq!(s.hand, PokerHand::Straight);
    assert_eq!(total(&s), (150.0, 16.0));
}

#[test]
fn flush_jokers() {
    let played = vec![
        c(Rank::Two, Suit::Hearts),
        c(Rank::Five, Suit::Hearts),
        c(Rank::Seven, Suit::Hearts),
        c(Rank::Nine, Suit::Hearts),
        c(Rank::Jack, Suit::Hearts),
    ];
    let s = score(played, vec![], vec![j(Joker::DrollJoker), j(Joker::CraftyJoker)]);
    assert_eq!(s.hand, PokerHand::Flush);
    assert_eq!(total(&s), (148.0, 14.0));
}

#[test]
fn rank_parity_jokers() {
    let jokers = vec![j(Joker::Fibonacci), j(Joker::EvenSteven), j(Joker::OddTodd)];
    let s = score(vec![c(Rank::Eight, Suit::Hearts)], vec![], jokers.clone());
    assert_eq!(total(&s), (13.0, 13.0));
    let s = score(vec![c(Rank::Ace, Suit::Spades)], vec![], jokers);
    assert_eq!(total(&s), (47.0, 9.0));
}

#[test]
fn pareidolia_makes_every_card_a_face() {
    let s = score(
        vec![c(Rank::Two, Suit::Hearts)],
        vec![],
        vec![j(Joker::Pareidolia), j(Joker::ScaryFace), j(Joker::SockAndBuskin)],
    );
    assert_eq!(total(&s), (69.0, 1.0));
}

#[test]
fn mult_enhancement_and_foil() {
    let s = score(vec![enhanced(Rank::Two, Suit::Hearts, Enhancement::Mult)], vec![], vec![]);
    assert_eq!(total(&s), (7.0, 5.0));
    let s = score(
        vec![enhanced(Rank::Two, Suit::Hearts, Enhancement::Mult)],
        vec![],
        vec![JokerCard::new(Joker::Joker, Some(Edition::Foil))],
    );
    assert_eq!(total(&s), (57.0, 9.0));
    let s = score(vec![with_edition(Rank::Two, Suit::Hearts, Edition::Foil)], vec![], vec![]);
    assert_eq!(total(&s), (57.0, 1.0));
}

#[test]
fn smeared_flower_pot_caps_each_color() {
    let played = vec![
        c(Rank::Two, Suit::Hearts),
        c(Rank::Two, Suit::Diamonds),
        c(Rank::Two, Suit::Hearts),
        c(Rank::Two, Suit::Spades),
    ];
    let s = score(played, vec![], vec![j(Joker::FlowerPot), j(Joker::SmearedJoker)]);
    assert_eq!(s.hand, PokerHand::FourOfAKind);
    assert_eq!(total(&s), (68.0, 7.0));
    let mixed = vec![
        c(Rank::Two, Suit::Hearts),
        c(Rank::Two, Suit::Diamonds),
        c(Rank::Two, Suit::Clubs),
        c(Rank::Two, Suit::Spades),
    ];
    let s = score(mixed, vec![], vec![j(Joker::FlowerPot), j(Joker::SmearedJoker)]);
    assert_eq!(total(&s), (68.0, 21.0));
}

#[test]
fn wild_cards_count_for_every_suit_joker() {
    let played = vec![enhanced(Rank::Two, Suit::Hearts, Enhancement::Wild)];
    let s = score(played, vec![], vec![j(Joker::WrathfulJoker), j(Joker::GluttonousJoker)]);
    assert_eq!(total(&s), (7.0, 7.0));
    let s = score(vec![c(Rank::Two, Suit::Hearts)], vec![], vec![j(Joker::LustyJoker)]);
    assert_eq!(total(&s), (7.0, 4.0));
}

#[test]
fn blueprint_copy_fires_in_scoring() {
    let s = score(
        vec![c(Rank::Two, Suit::Hearts)],
        vec![c(Rank::King, Suit::Spades)],
        vec![j(Joker::Blueprint), j(Joker::Baron)],
    );
    assert_eq!(total(&s), (7.0, 2.25));
}

#[test]
fn abstract_joker_counts_owned_jokers_only() {
    let s = score(
        vec![c(Rank::Two, Suit::Spades)],
        vec![],
        vec![j(Joker::Blueprint), j(Joker::AbstractJoker)],
    );
    assert_eq!(s.ops, vec![ScoreOp::AddChips(2), ScoreOp::AddMult(6), ScoreOp::AddMult(6)]);
    assert_eq!(total(&s), (7.0, 13.0));
}
