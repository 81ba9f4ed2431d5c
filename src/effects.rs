//! The bonuses of cards, editions and jokers, each as the score operations
//! it appends. A score is a base (chips, mult) followed by operations in
//! order; chips only grow by whole amounts, mult grows by whole amounts or
//! is multiplied by a fixed factor.
use vstd::prelude::*;
use crate::card::{Card, Edition, Enhancement, JokerCard, Rank, Suit, rank_to_order};
use crate::counts::{CardCounts, summarize, suit_cnt, wild_cnt, suits_present};
use crate::hands::{
    flush_cards, get_flush_cards, get_pair_cards, get_straight_cards, get_three_of_a_kind_cards,
    get_two_pair_cards, kind_cards, straight_cards, two_pair_cards,
};
use crate::jokers::JokerEffectFlags;

verus! {

/// A factor that mult is multiplied by.
#[derive(Clone, Copy, Debug, PartialEq, Eq, Structural, Hash)]
pub enum Factor {
    ThreeHalves,
    Two,
    Three,
}

/// One step of scoring, applied to the running (chips, mult).
#[derive(Clone, Copy, Debug, PartialEq, Eq, Structural, Hash)]
pub enum ScoreOp {
    AddChips(u128),
    AddMult(u128),
    TimesMult(Factor),
}

/// The operations of a card's enhancement when the card is scored.
pub open spec fn enhancement_ops(card: Card) -> Seq<ScoreOp> {
    match card.enhancement {
        Some(Enhancement::Bonus) => seq![ScoreOp::AddChips(30)],
        Some(Enhancement::Mult) => seq![ScoreOp::AddMult(4)],
        Some(Enhancement::Glass) => seq![ScoreOp::TimesMult(Factor::Two)],
        _ => seq![],
    }
}

/// The operations of an edition on a scored card.
pub open spec fn edition_ops(edition: Option<Edition>) -> Seq<ScoreOp> {
    match edition {
        Some(Edition::Foil) => seq![ScoreOp::AddChips(50)],
        Some(Edition::Holographic) => seq![ScoreOp::AddMult(10)],
        Some(Edition::Polychrome) => seq![ScoreOp::TimesMult(Factor::ThreeHalves)],
        None => seq![],
    }
}

/// The operations of one scoring of a card, before any joker: its rank's
/// chips, its enhancement, its edition.
pub open spec fn card_ops(card: Card) -> Seq<ScoreOp> {
    seq![ScoreOp::AddChips(card.rank.value() as u128)] + enhancement_ops(card) + edition_ops(card.edition)
}

/// The operations of a card held in hand, before any joker: Steel alone counts.
pub open spec fn held_card_ops(card: Card) -> Seq<ScoreOp> {
    if card.enhancement == Some(Enhancement::Steel) {
        seq![ScoreOp::TimesMult(Factor::ThreeHalves)]
    } else {
        seq![]
    }
}

/// The part of a joker's edition applied before its effect.
pub open spec fn joker_edition_before(edition: Option<Edition>) -> Seq<ScoreOp> {
    match edition {
        Some(Edition::Foil) => seq![ScoreOp::AddChips(50)],
        Some(Edition::Holographic) => seq![ScoreOp::AddMult(10)],
        _ => seq![],
    }
}

/// The part of a joker's edition applied after its effect.
pub open spec fn joker_edition_after(edition: Option<Edition>) -> Seq<ScoreOp> {
    if edition == Some(Edition::Polychrome) {
        seq![ScoreOp::TimesMult(Factor::ThreeHalves)]
    } else {
        seq![]
    }
}

pub fn apply_enhancement(ops: &mut Vec<ScoreOp>, card: &Card)
    ensures
        final(ops)@ == old(ops)@ + enhancement_ops(*card),
{
    match card.enhancement {
        Some(Enhancement::Bonus) => ops.push(ScoreOp::AddChips(30)),
        Some(Enhancement::Mult) => ops.push(ScoreOp::AddMult(4)),
        Some(Enhancement::Glass) => ops.push(ScoreOp::TimesMult(Factor::Two)),
        _ => {},
    }
    assert(final(ops)@ =~= old(ops)@ + enhancement_ops(*card));
}

pub fn apply_edition(ops: &mut Vec<ScoreOp>, edition: Option<Edition>)
    ensures
        final(ops)@ == old(ops)@ + edition_ops(edition),
{
    match edition {
        Some(Edition::Foil) => ops.push(ScoreOp::AddChips(50)),
        Some(Edition::Holographic) => ops.push(ScoreOp::AddMult(10)),
        Some(Edition::Polychrome) => ops.push(ScoreOp::TimesMult(Factor::ThreeHalves)),
        None => {},
    }
    assert(final(ops)@ =~= old(ops)@ + edition_ops(edition));
}

pub fn apply_held_enhancement(ops: &mut Vec<ScoreOp>, card: &Card)
    ensures
        final(ops)@ == old(ops)@ + held_card_ops(*card),
{
    if card.enhancement == Some(Enhancement::Steel) {
        ops.push(ScoreOp::TimesMult(Factor::ThreeHalves));
    }
    assert(final(ops)@ =~= old(ops)@ + held_card_ops(*card));
}

pub fn apply_joker_edition_before(ops: &mut Vec<ScoreOp>, edition: Option<Edition>)
    ensures
        final(ops)@ == old(ops)@ + joker_edition_before(edition),
{
    match edition {
        Some(Edition::Foil) => ops.push(ScoreOp::AddChips(50)),
        Some(Edition::Holographic) => ops.push(ScoreOp::AddMult(10)),
        _ => {},
    }
    assert(final(ops)@ =~= old(ops)@ + joker_edition_before(edition));
}

pub fn apply_joker_edition_after(ops: &mut Vec<ScoreOp>, edition: Option<Edition>)
    ensures
        final(ops)@ == old(ops)@ + joker_edition_after(edition),
{
    if edition == Some(Edition::Polychrome) {
        ops.push(ScoreOp::TimesMult(Factor::ThreeHalves));
    }
    assert(final(ops)@ =~= old(ops)@ + joker_edition_after(edition));
}

/// `op` when `cond` holds, else nothing.
pub open spec fn op_if(cond: bool, op: ScoreOp) -> Seq<ScoreOp> {
    if cond {
        seq![op]
    } else {
        seq![]
    }
}

fn push_when(ops: &mut Vec<ScoreOp>, cond: bool, op: ScoreOp)
    ensures
        final(ops)@ == old(ops)@ + op_if(cond, op),
{
    if cond {
        ops.push(op);
    }
    assert(final(ops)@ =~= old(ops)@ + op_if(cond, op));
}

// Jokers that fire once per scoring.

pub fn joker_effect(ops: &mut Vec<ScoreOp>)
    ensures
        final(ops)@ == old(ops)@ + seq![ScoreOp::AddMult(4)],
{
    ops.push(ScoreOp::AddMult(4));
}

pub fn jolly_joker_effect(ops: &mut Vec<ScoreOp>, counts: &CardCounts, cards: &Vec<Card>)
    requires
        counts.summarizes(cards@),
    ensures
        final(ops)@ == old(ops)@ + op_if(kind_cards(cards@, 2) is Some, ScoreOp::AddMult(8)),
{
    let hit = get_pair_cards(cards, counts).is_some();
    push_when(ops, hit, ScoreOp::AddMult(8));
}

pub fn zany_joker_effect(ops: &mut Vec<ScoreOp>, counts: &CardCounts, cards: &Vec<Card>)
    requires
        counts.summarizes(cards@),
    ensures
        final(ops)@ == old(ops)@ + op_if(kind_cards(cards@, 3) is Some, ScoreOp::AddMult(12)),
{
    let hit = get_three_of_a_kind_cards(cards, counts).is_some();
    push_when(ops, hit, ScoreOp::AddMult(12));
}

pub fn mad_joker_effect(ops: &mut Vec<ScoreOp>, counts: &CardCounts, cards: &Vec<Card>)
    requires
        counts.summarizes(cards@),
    ensures
        final(ops)@ == old(ops)@ + op_if(two_pair_cards(cards@) is Some, ScoreOp::AddMult(10)),
{
    let hit = get_two_pair_cards(cards, counts).is_some();
    push_when(ops, hit, ScoreOp::AddMult(10));
}

pub fn crazy_joker_effect(
    ops: &mut Vec<ScoreOp>,
    counts: &CardCounts,
    cards: &Vec<Card>,
    joker_effects: &JokerEffectFlags,
)
    requires
        counts.summarizes(cards@),
    ensures
        final(ops)@ == old(ops)@ + op_if(straight_cards(cards@, *joker_effects) is Some, ScoreOp::AddMult(12)),
{
    let hit = get_straight_cards(cards, counts, joker_effects).is_some();
    push_when(ops, hit, ScoreOp::AddMult(12));
}

pub fn droll_joker_effect(
    ops: &mut Vec<ScoreOp>,
    counts: &CardCounts,
    cards: &Vec<Card>,
    joker_effects: &JokerEffectFlags,
)
    requires
        counts.summarizes(cards@),
    ensures
        final(ops)@ == old(ops)@ + op_if(flush_cards(cards@, *joker_effects) is Some, ScoreOp::AddMult(10)),
{
    let hit = get_flush_cards(cards, counts, joker_effects).is_some();
    push_when(ops, hit, ScoreOp::AddMult(10));
}

pub fn sly_joker_effect(ops: &mut Vec<ScoreOp>, counts: &CardCounts, cards: &Vec<Card>)
    requires
        counts.summarizes(cards@),
    ensures
        final(ops)@ == old(ops)@ + op_if(kind_cards(cards@, 2) is Some, ScoreOp::AddChips(50)),
{
    let hit = get_pair_cards(cards, counts).is_some();
    push_when(ops, hit, ScoreOp::AddChips(50));
}

pub fn wily_joker_effect(ops: &mut Vec<ScoreOp>, counts: &CardCounts, cards: &Vec<Card>)
    requires
        counts.summarizes(cards@),
    ensures
        final(ops)@ == old(ops)@ + op_if(kind_cards(cards@, 3) is Some, ScoreOp::AddChips(100)),
{
    let hit = get_three_of_a_kind_cards(cards, counts).is_some();
    push_when(ops, hit, ScoreOp::AddChips(100));
}

pub fn clever_joker_effect(ops: &mut Vec<ScoreOp>, counts: &CardCounts, cards: &Vec<Card>)
    requires
        counts.summarizes(cards@),
    ensures
        final(ops)@ == old(ops)@ + op_if(two_pair_cards(cards@) is Some, ScoreOp::AddChips(80)),
{
    let hit = get_two_pair_cards(cards, counts).is_some();
    push_when(ops, hit, ScoreOp::AddChips(80));
}

pub fn devious_joker_effect(
    ops: &mut Vec<ScoreOp>,
    counts: &CardCounts,
    cards: &Vec<Card>,
    joker_effects: &JokerEffectFlags,
)
    requires
        counts.summarizes(cards@),
    ensures
        final(ops)@ == old(ops)@ + op_if(straight_cards(cards@, *joker_effects) is Some, ScoreOp::AddChips(100)),
{
    let hit = get_straight_cards(cards, counts, joker_effects).is_some();
    push_when(ops, hit, ScoreOp::AddChips(100));
}

pub fn crafty_joker_effect(
    ops: &mut Vec<ScoreOp>,
    counts: &CardCounts,
    cards: &Vec<Card>,
    joker_effects: &JokerEffectFlags,
)
    requires
        counts.summarizes(cards@),
    ensures
        final(ops)@ == old(ops)@ + op_if(flush_cards(cards@, *joker_effects) is Some, ScoreOp::AddChips(80)),
{
    let hit = get_flush_cards(cards, counts, joker_effects).is_some();
    push_when(ops, hit, ScoreOp::AddChips(80));
}

/// Three mult for each owned joker; Blueprint copies are not counted.
pub fn abstract_joker_effect(ops: &mut Vec<ScoreOp>, jokers: &Vec<JokerCard>)
    ensures
        final(ops)@ == old(ops)@ + seq![ScoreOp::AddMult((3 * jokers@.len()) as u128)],
{
    ops.push(ScoreOp::AddMult(3 * (jokers.len() as u128)));
}

/// Every card held in hand is a Spade or a Club, or wild, and one is held.
pub open spec fn all_held_black(cards: Seq<Card>) -> bool {
    cards.len() > 0 && forall|i: int|
        0 <= i < cards.len() ==> (#[trigger] cards[i].suit == Suit::Spades || cards[i].suit == Suit::Clubs
            || cards[i].is_wild())
}

pub fn blackboard_effect(ops: &mut Vec<ScoreOp>, cards: &Vec<Card>)
    ensures
        final(ops)@ == old(ops)@ + op_if(all_held_black(cards@), ScoreOp::TimesMult(Factor::Three)),
{
    if cards.len() == 0 {
        proof {
            assert(old(ops)@ + op_if(all_held_black(cards@), ScoreOp::TimesMult(Factor::Three)) =~= old(ops)@);
        }
        return;
    }
    let mut all = true;
    let mut i: usize = 0;
    while i < cards.len()
        invariant
            i <= cards@.len(),
            all == forall|t: int|
                0 <= t < i ==> (#[trigger] cards@[t].suit == Suit::Spades || cards@[t].suit == Suit::Clubs
                    || cards@[t].is_wild()),
        decreases cards@.len() - i,
    {
        let c = cards[i];
        if !(c.suit == Suit::Spades || c.suit == Suit::Clubs || c.wild()) {
            all = false;
        }
        i = i + 1;
    }
    push_when(ops, all, ScoreOp::TimesMult(Factor::Three));
}

pub open spec fn min2(n: nat) -> nat {
    if n < 2 {
        n
    } else {
        2
    }
}

/// The scored cards show all four suits, wild cards filling in for missing
/// ones; under `smeared` a color counts for at most two suits.
pub open spec fn flower_pot_holds(cards: Seq<Card>, smeared: bool) -> bool {
    let wild = wild_cnt(cards);
    &&& cards.len() >= 4
    &&& if smeared {
        min2(suit_cnt(cards, 1) + suit_cnt(cards, 3)) + min2(suit_cnt(cards, 0) + suit_cnt(cards, 2)) + wild
            >= 4
    } else {
        suits_present(cards, 4) + wild >= 4
    }
}

pub fn flower_pot_effect(ops: &mut Vec<ScoreOp>, cards: &Vec<Card>, joker_effect: &JokerEffectFlags)
    ensures
        final(ops)@ == old(ops)@ + op_if(
            flower_pot_holds(cards@, joker_effect.smeared_joker),
            ScoreOp::TimesMult(Factor::Three),
        ),
{
    if cards.len() < 4 {
        push_when(ops, false, ScoreOp::TimesMult(Factor::Three));
        return;
    }
    let counts = summarize(cards);
    let wild = counts.wild_count as u128;
    let valid: u128 = if joker_effect.smeared_joker {
        let red = counts.suit_count[1] as u128 + counts.suit_count[3] as u128;
        let black = counts.suit_count[0] as u128 + counts.suit_count[2] as u128;
        let red_capped: u128 = if red < 2 { red } else { 2 };
        let black_capped: u128 = if black < 2 { black } else { 2 };
        red_capped + black_capped
    } else {
        let mut present: u128 = 0;
        let mut k: usize = 0;
        while k < 4
            invariant
                k <= 4,
                counts.summarizes(cards@),
                present == suits_present(cards@, k as int),
                present <= k,
            decreases 4 - k,
        {
            if counts.suit_count[k] > 0 {
                present = present + 1;
            }
            k = k + 1;
        }
        present
    };
    push_when(ops, valid + wild >= 4, ScoreOp::TimesMult(Factor::Three));
}

// Jokers that fire for each scored card.

/// A scored card counts for `suit`: it has that suit (under `smeared`, that
/// suit's color) or is wild.
pub open spec fn counts_as(card: Card, suit: Suit, smeared: bool) -> bool {
    if smeared {
        card.suit.spec_color() == suit.spec_color() || card.is_wild()
    } else {
        card.suit == suit || card.is_wild()
    }
}

fn card_counts_as(card: &Card, suit: Suit, smeared: bool) -> (r: bool)
    ensures
        r == counts_as(*card, suit, smeared),
{
    if smeared {
        card.suit.color() == suit.color() || card.wild()
    } else {
        card.suit == suit || card.wild()
    }
}

pub fn greedy_joker_effect(ops: &mut Vec<ScoreOp>, card: &Card, joker_effects: &JokerEffectFlags)
    ensures
        final(ops)@ == old(ops)@ + op_if(
            counts_as(*card, Suit::Diamonds, joker_effects.smeared_joker),
            ScoreOp::AddMult(3),
        ),
{
    let hit = card_counts_as(card, Suit::Diamonds, joker_effects.smeared_joker);
    push_when(ops, hit, ScoreOp::AddMult(3));
}

pub fn lusty_joker_effect(ops: &mut Vec<ScoreOp>, card: &Card, joker_effects: &JokerEffectFlags)
    ensures
        final(ops)@ == old(ops)@ + op_if(
            counts_as(*card, Suit::Hearts, joker_effects.smeared_joker),
            ScoreOp::AddMult(3),
        ),
{
    let hit = card_counts_as(card, Suit::Hearts, joker_effects.smeared_joker);
    push_when(ops, hit, ScoreOp::AddMult(3));
}

pub fn wrathful_joker_effect(ops: &mut Vec<ScoreOp>, card: &Card, joker_effects: &JokerEffectFlags)
    ensures
        final(ops)@ == old(ops)@ + op_if(
            counts_as(*card, Suit::Spades, joker_effects.smeared_joker),
            ScoreOp::AddMult(3),
        ),
{
    let hit = card_counts_as(card, Suit::Spades, joker_effects.smeared_joker);
    push_when(ops, hit, ScoreOp::AddMult(3));
}

pub fn gluttonous_joker_effect(ops: &mut Vec<ScoreOp>, card: &Card, joker_effects: &JokerEffectFlags)
    ensures
        final(ops)@ == old(ops)@ + op_if(
            counts_as(*card, Suit::Clubs, joker_effects.smeared_joker),
            ScoreOp::AddMult(3),
        ),
{
    let hit = card_counts_as(card, Suit::Clubs, joker_effects.smeared_joker);
    push_when(ops, hit, ScoreOp::AddMult(3));
}

pub fn fibonacci_effect(ops: &mut Vec<ScoreOp>, card: &Card)
    ensures
        final(ops)@ == old(ops)@ + op_if(
            card.rank == Rank::Ace || card.rank == Rank::Two || card.rank == Rank::Five || card.rank
                == Rank::Eight,
            ScoreOp::AddMult(8),
        ),
{
    let hit = match card.rank {
        Rank::Ace | Rank::Two | Rank::Five | Rank::Eight => true,
        _ => false,
    };
    push_when(ops, hit, ScoreOp::AddMult(8));
}

pub fn scary_face_effect(ops: &mut Vec<ScoreOp>, card: &Card, joker_effects: &JokerEffectFlags)
    ensures
        final(ops)@ == old(ops)@ + op_if(card.rank.face() || joker_effects.pareidolia, ScoreOp::AddChips(30)),
{
    let hit = card.rank.is_face() || joker_effects.pareidolia;
    push_when(ops, hit, ScoreOp::AddChips(30));
}

pub open spec fn is_even(r: Rank) -> bool {
    r == Rank::Ten || r == Rank::Eight || r == Rank::Six || r == Rank::Four || r == Rank::Two
}

pub fn even_steven_effect(ops: &mut Vec<ScoreOp>, card: &Card)
    ensures
        final(ops)@ == old(ops)@ + op_if(is_even(card.rank), ScoreOp::AddMult(4)),
{
    let hit = match card.rank {
        Rank::Ten | Rank::Eight | Rank::Six | Rank::Four | Rank::Two => true,
        _ => false,
    };
    push_when(ops, hit, ScoreOp::AddMult(4));
}

pub open spec fn is_odd(r: Rank) -> bool {
    r == Rank::Ace || r == Rank::Nine || r == Rank::Seven || r == Rank::Five || r == Rank::Three
}

pub fn odd_todd_effect(ops: &mut Vec<ScoreOp>, card: &Card)
    ensures
        final(ops)@ == old(ops)@ + op_if(is_odd(card.rank), ScoreOp::AddChips(31)),
{
    let hit = match card.rank {
        Rank::Ace | Rank::Nine | Rank::Seven | Rank::Five | Rank::Three => true,
        _ => false,
    };
    push_when(ops, hit, ScoreOp::AddChips(31));
}

/// The position of the first face card of `cards` from `k` on.
pub open spec fn first_face_from(cards: Seq<Card>, k: int) -> Option<int>
    decreases cards.len() - k,
{
    if k < 0 || k >= cards.len() {
        None
    } else if cards[k].rank.face() {
        Some(k)
    } else {
        first_face_from(cards, k + 1)
    }
}

/// The scored card at `pos` is the first face card of the scored cards
/// (under `pareidolia`, the first scored card).
pub open spec fn is_photographed(pos: int, cards: Seq<Card>, pareidolia: bool) -> bool {
    if pareidolia {
        cards.len() > 0 && pos == 0
    } else {
        first_face_from(cards, 0) == Some(pos)
    }
}

pub fn photograph_effect(ops: &mut Vec<ScoreOp>, pos: usize, cards: &Vec<Card>, joker_effects: &JokerEffectFlags)
    ensures
        final(ops)@ == old(ops)@ + op_if(
            is_photographed(pos as int, cards@, joker_effects.pareidolia),
            ScoreOp::TimesMult(Factor::Two),
        ),
{
    let hit = if joker_effects.pareidolia {
        cards.len() > 0 && pos == 0
    } else {
        let mut first: Option<usize> = None;
        let mut k: usize = 0;
        while k < cards.len()
            invariant
                k <= cards@.len(),
                first is None ==> first_face_from(cards@, 0) == first_face_from(cards@, k as int),
                first is Some ==> first_face_from(cards@, 0) == Some(first->0 as int),
            decreases cards@.len() - k,
        {
            if first.is_none() && cards[k].rank.is_face() {
                first = Some(k);
            }
            k = k + 1;
        }
        match first {
            Some(f) => f == pos,
            None => false,
        }
    };
    push_when(ops, hit, ScoreOp::TimesMult(Factor::Two));
}

pub fn smiley_face_effect(ops: &mut Vec<ScoreOp>, card: &Card, joker_effects: &JokerEffectFlags)
    ensures
        final(ops)@ == old(ops)@ + op_if(card.rank.face() || joker_effects.pareidolia, ScoreOp::AddMult(5)),
{
    let hit = card.rank.is_face() || joker_effects.pareidolia;
    push_when(ops, hit, ScoreOp::AddMult(5));
}

// Jokers that fire for each card held in hand.

/// The position of the lowest card below `n` (Ace high); among equals, the
/// last one.
pub open spec fn lowest_upto(cards: Seq<Card>, n: int) -> int
    decreases n,
{
    if n <= 1 {
        0
    } else {
        let b = lowest_upto(cards, n - 1);
        if cards[n - 1].rank.order(false) <= cards[b].rank.order(false) {
            n - 1
        } else {
            b
        }
    }
}

/// The held card at `pos` is the lowest held card, the rightmost among equals.
pub open spec fn is_lowest_held(pos: int, cards: Seq<Card>) -> bool {
    cards.len() > 0 && lowest_upto(cards, cards.len() as int) == pos
}

pub fn raised_fist_effect(ops: &mut Vec<ScoreOp>, pos: usize, cards: &Vec<Card>)
    requires
        pos < cards@.len(),
    ensures
        final(ops)@ == old(ops)@ + op_if(
            is_lowest_held(pos as int, cards@),
            ScoreOp::AddMult((2 * cards@[pos as int].rank.value()) as u128),
        ),
{
    let mut lowest: usize = 0;
    let mut i: usize = 1;
    while i < cards.len()
        invariant
            1 <= i <= cards@.len(),
            lowest == lowest_upto(cards@, i as int),
            lowest < i,
        decreases cards@.len() - i,
    {
        if rank_to_order(&cards[i].rank, false) <= rank_to_order(&cards[lowest].rank, false) {
            lowest = i;
        }
        i = i + 1;
    }
    let value = cards[pos].rank.rank_value() as u128;
    push_when(ops, lowest == pos, ScoreOp::AddMult(2 * value));
}

pub fn baron_effect(ops: &mut Vec<ScoreOp>, card: &Card)
    ensures
        final(ops)@ == old(ops)@ + op_if(card.rank == Rank::King, ScoreOp::TimesMult(Factor::ThreeHalves)),
{
    push_when(ops, card.rank == Rank::King, ScoreOp::TimesMult(Factor::ThreeHalves));
}

} // verus!
