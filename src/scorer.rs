//! The scoring of a round: the best hand and its base, then the scored
//! cards, the held cards and the jokers, each step in a fixed order.
use vstd::prelude::*;
use crate::card::{Card, Joker, JokerCard, PokerHand, Rank, Round, Suit, get_base_score};
use crate::counts::{CardCounts, summarize};
use crate::effects::{
    Factor, ScoreOp, abstract_joker_effect, all_held_black, apply_edition, apply_enhancement,
    apply_held_enhancement, apply_joker_edition_after, apply_joker_edition_before, baron_effect,
    blackboard_effect, card_ops, clever_joker_effect, counts_as, crafty_joker_effect, crazy_joker_effect,
    devious_joker_effect, droll_joker_effect, even_steven_effect, fibonacci_effect, flower_pot_effect,
    flower_pot_holds, gluttonous_joker_effect, greedy_joker_effect, held_card_ops, is_even, is_lowest_held,
    is_odd, is_photographed, joker_edition_after, joker_edition_before, joker_effect, jolly_joker_effect,
    lusty_joker_effect, mad_joker_effect, odd_todd_effect, photograph_effect, raised_fist_effect,
    scary_face_effect, sly_joker_effect, smiley_face_effect, op_if, wily_joker_effect,
    wrathful_joker_effect, zany_joker_effect,
};
use crate::hands::{
    best_hand, cards_at, find_best_hand, flush_cards, kind_cards, straight_cards,
    two_pair_cards,
};
use crate::jokers::{
    JokerActivation, JokerEffectFlags, activation, apply_blueprint_jokers, effective_jokers, flags_of,
    get_joker_activation, set_joker_effects,
};

verus! {

/// What a joker that fires once per scoring adds, apart from its edition;
/// `n_owned` is the number of owned jokers, Blueprint copies not counted.
pub open spec fn independent_effect(
    j: Joker,
    played: Seq<Card>,
    held: Seq<Card>,
    scored: Seq<Card>,
    n_owned: nat,
    flags: JokerEffectFlags,
) -> Seq<ScoreOp> {
    match j {
        Joker::Joker => seq![ScoreOp::AddMult(4)],
        Joker::JollyJoker => op_if(kind_cards(played, 2) is Some, ScoreOp::AddMult(8)),
        Joker::ZanyJoker => op_if(kind_cards(played, 3) is Some, ScoreOp::AddMult(12)),
        Joker::MadJoker => op_if(two_pair_cards(played) is Some, ScoreOp::AddMult(10)),
        Joker::CrazyJoker => op_if(straight_cards(played, flags) is Some, ScoreOp::AddMult(12)),
        Joker::DrollJoker => op_if(flush_cards(played, flags) is Some, ScoreOp::AddMult(10)),
        Joker::SlyJoker => op_if(kind_cards(played, 2) is Some, ScoreOp::AddChips(50)),
        Joker::WilyJoker => op_if(kind_cards(played, 3) is Some, ScoreOp::AddChips(100)),
        Joker::CleverJoker => op_if(two_pair_cards(played) is Some, ScoreOp::AddChips(80)),
        Joker::DeviousJoker => op_if(straight_cards(played, flags) is Some, ScoreOp::AddChips(100)),
        Joker::CraftyJoker => op_if(flush_cards(played, flags) is Some, ScoreOp::AddChips(80)),
        Joker::AbstractJoker => seq![ScoreOp::AddMult((3 * n_owned) as u128)],
        Joker::Blackboard => op_if(all_held_black(held), ScoreOp::TimesMult(Factor::Three)),
        Joker::FlowerPot => op_if(flower_pot_holds(scored, flags.smeared_joker), ScoreOp::TimesMult(Factor::Three)),
        _ => seq![],
    }
}

/// What a joker of activation class `act` adds in the last step: its Foil or
/// Holographic edition, its effect if it fires once per scoring, then its
/// Polychrome edition.
pub open spec fn joker_ops(
    jc: JokerCard,
    act: JokerActivation,
    played: Seq<Card>,
    held: Seq<Card>,
    scored: Seq<Card>,
    n_owned: nat,
    flags: JokerEffectFlags,
) -> Seq<ScoreOp> {
    joker_edition_before(jc.edition) + (if act == JokerActivation::Independent {
        independent_effect(jc.joker, played, held, scored, n_owned, flags)
    } else {
        seq![]
    }) + joker_edition_after(jc.edition)
}

/// What a joker that fires per scored card adds for the card at `pos` of the
/// scored cards.
pub open spec fn on_score_effect(j: Joker, pos: int, scoring: Seq<Card>, flags: JokerEffectFlags) -> Seq<
    ScoreOp,
> {
    let card = scoring[pos];
    match j {
        Joker::GreedyJoker => op_if(counts_as(card, Suit::Diamonds, flags.smeared_joker), ScoreOp::AddMult(3)),
        Joker::LustyJoker => op_if(counts_as(card, Suit::Hearts, flags.smeared_joker), ScoreOp::AddMult(3)),
        Joker::WrathfulJoker => op_if(counts_as(card, Suit::Spades, flags.smeared_joker), ScoreOp::AddMult(3)),
        Joker::GluttonousJoker => op_if(counts_as(card, Suit::Clubs, flags.smeared_joker), ScoreOp::AddMult(3)),
        Joker::Fibonacci => op_if(
            card.rank == Rank::Ace || card.rank == Rank::Two || card.rank
                == Rank::Five || card.rank == Rank::Eight,
            ScoreOp::AddMult(8),
        ),
        Joker::ScaryFace => op_if(card.rank.face() || flags.pareidolia, ScoreOp::AddChips(30)),
        Joker::EvenSteven => op_if(is_even(card.rank), ScoreOp::AddMult(4)),
        Joker::OddTodd => op_if(is_odd(card.rank), ScoreOp::AddChips(31)),
        Joker::Photograph => op_if(is_photographed(pos, scoring, flags.pareidolia), ScoreOp::TimesMult(Factor::Two)),
        Joker::SmileyFace => op_if(card.rank.face() || flags.pareidolia, ScoreOp::AddMult(5)),
        _ => seq![],
    }
}

/// What a joker that fires per held card adds for the held card at `pos`.
pub open spec fn on_held_effect(j: Joker, pos: int, held: Seq<Card>) -> Seq<ScoreOp> {
    match j {
        Joker::RaisedFist => op_if(
            is_lowest_held(pos, held),
            ScoreOp::AddMult((2 * held[pos].rank.value()) as u128),
        ),
        Joker::Baron => op_if(held[pos].rank == Rank::King, ScoreOp::TimesMult(Factor::ThreeHalves)),
        _ => seq![],
    }
}

/// A joker of the effective sequence with its activation class.
pub struct JokerWrapper {
    pub joker_card: JokerCard,
    pub joker_activation: JokerActivation,
}

/// A joker that fires for each card held in hand.
pub struct JokerOnHeldWrapper {
    pub joker_card: JokerCard,
}

/// A joker that fires for each scored card.
pub struct JokerOnScoredWrapper {
    pub joker_card: JokerCard,
}

impl JokerWrapper {
    /// Appends this joker's last-step operations, as its activation field
    /// classes it: see `joker_ops`. `joker_cards` are the owned jokers.
    pub fn apply_effect(
        &self,
        ops: &mut Vec<ScoreOp>,
        counts: &CardCounts,
        cards: &Vec<Card>,
        cards_in_hand: &Vec<Card>,
        cards_scored: &Vec<Card>,
        joker_cards: &Vec<JokerCard>,
        joker_effects: &JokerEffectFlags,
    )
        requires
            counts.summarizes(cards@),
        ensures
            final(ops)@ == old(ops)@ + joker_ops(
                self.joker_card,
                self.joker_activation,
                cards@,
                cards_in_hand@,
                cards_scored@,
                joker_cards@.len(),
                *joker_effects,
            ),
    {
        let ghost start = old(ops)@;
        let joker_card = self.joker_card;
        apply_joker_edition_before(ops, joker_card.edition);
        let ghost mid = ops@;
        if self.joker_activation == JokerActivation::Independent {
            match joker_card.joker {
                Joker::Joker => joker_effect(ops),
                Joker::JollyJoker => jolly_joker_effect(ops, counts, cards),
                Joker::ZanyJoker => zany_joker_effect(ops, counts, cards),
                Joker::MadJoker => mad_joker_effect(ops, counts, cards),
                Joker::CrazyJoker => crazy_joker_effect(ops, counts, cards, joker_effects),
                Joker::DrollJoker => droll_joker_effect(ops, counts, cards, joker_effects),
                Joker::SlyJoker => sly_joker_effect(ops, counts, cards),
                Joker::WilyJoker => wily_joker_effect(ops, counts, cards),
                Joker::CleverJoker => clever_joker_effect(ops, counts, cards),
                Joker::DeviousJoker => devious_joker_effect(ops, counts, cards, joker_effects),
                Joker::CraftyJoker => crafty_joker_effect(ops, counts, cards, joker_effects),
                Joker::AbstractJoker => abstract_joker_effect(ops, joker_cards),
                Joker::Blackboard => blackboard_effect(ops, cards_in_hand),
                Joker::FlowerPot => flower_pot_effect(ops, cards_scored, joker_effects),
                _ => {},
            }
        }
        let ghost effect = ops@;
        assert(effect =~= mid + (if self.joker_activation == JokerActivation::Independent {
            independent_effect(
                joker_card.joker,
                cards@,
                cards_in_hand@,
                cards_scored@,
                joker_cards@.len(),
                *joker_effects,
            )
        } else {
            seq![]
        }));
        apply_joker_edition_after(ops, joker_card.edition);
        assert(ops@ =~= start + joker_ops(
            joker_card,
            self.joker_activation,
            cards@,
            cards_in_hand@,
            cards_scored@,
            joker_cards@.len(),
            *joker_effects,
        ));
    }
}

impl JokerOnHeldWrapper {
    /// Appends what this joker adds for the held card at `pos`.
    pub fn apply_effect(&self, ops: &mut Vec<ScoreOp>, pos: usize, cards: &Vec<Card>)
        requires
            pos < cards@.len(),
        ensures
            final(ops)@ == old(ops)@ + on_held_effect(self.joker_card.joker, pos as int, cards@),
    {
        match self.joker_card.joker {
            Joker::RaisedFist => raised_fist_effect(ops, pos, cards),
            Joker::Baron => baron_effect(ops, &cards[pos]),
            _ => {
                assert(old(ops)@ + on_held_effect(self.joker_card.joker, pos as int, cards@) =~= old(ops)@);
            },
        }
    }
}

impl JokerOnScoredWrapper {
    /// Appends what this joker adds for the scored card at `pos`.
    pub fn apply_effect(&self, ops: &mut Vec<ScoreOp>, pos: usize, cards: &Vec<Card>, joker_effects: &JokerEffectFlags)
        requires
            pos < cards@.len(),
        ensures
            final(ops)@ == old(ops)@ + on_score_effect(self.joker_card.joker, pos as int, cards@, *joker_effects),
    {
        let card = &cards[pos];
        match self.joker_card.joker {
            Joker::GreedyJoker => greedy_joker_effect(ops, card, joker_effects),
            Joker::LustyJoker => lusty_joker_effect(ops, card, joker_effects),
            Joker::WrathfulJoker => wrathful_joker_effect(ops, card, joker_effects),
            Joker::GluttonousJoker => gluttonous_joker_effect(ops, card, joker_effects),
            Joker::Fibonacci => fibonacci_effect(ops, card),
            Joker::ScaryFace => scary_face_effect(ops, card, joker_effects),
            Joker::EvenSteven => even_steven_effect(ops, card),
            Joker::OddTodd => odd_todd_effect(ops, card),
            Joker::Photograph => photograph_effect(ops, pos, cards, joker_effects),
            Joker::SmileyFace => smiley_face_effect(ops, card, joker_effects),
            _ => {
                assert(old(ops)@ + on_score_effect(self.joker_card.joker, pos as int, cards@, *joker_effects)
                    =~= old(ops)@);
            },
        }
    }
}


/// How many jokers of `jokers` are `j`.
pub open spec fn count_joker(jokers: Seq<JokerCard>, j: Joker) -> nat
    decreases jokers.len(),
{
    if jokers.len() == 0 {
        0
    } else {
        count_joker(jokers.drop_last(), j) + if jokers.last().joker == j { 1nat } else { 0nat }
    }
}

/// `s` applied `n` times over.
pub open spec fn repeat(s: Seq<ScoreOp>, n: nat) -> Seq<ScoreOp>
    decreases n,
{
    if n == 0 {
        seq![]
    } else {
        repeat(s, (n - 1) as nat) + s
    }
}

/// What the first `m` jokers of the effective sequence that fire per scored
/// card add for the scored card at `pos`.
pub open spec fn jokers_on_scored(
    jokers: Seq<JokerCard>,
    m: int,
    pos: int,
    scoring: Seq<Card>,
    flags: JokerEffectFlags,
) -> Seq<ScoreOp>
    decreases m,
{
    if m <= 0 {
        seq![]
    } else {
        jokers_on_scored(jokers, m - 1, pos, scoring, flags) + if activation(jokers[m - 1].joker)
            == JokerActivation::OnScore {
            on_score_effect(jokers[m - 1].joker, pos, scoring, flags)
        } else {
            seq![]
        }
    }
}

/// What the first `m` jokers of the effective sequence that fire per held
/// card add for the held card at `pos`.
pub open spec fn jokers_on_held(jokers: Seq<JokerCard>, m: int, pos: int, held: Seq<Card>) -> Seq<ScoreOp>
    decreases m,
{
    if m <= 0 {
        seq![]
    } else {
        jokers_on_held(jokers, m - 1, pos, held) + if activation(jokers[m - 1].joker) == JokerActivation::OnHeld {
            on_held_effect(jokers[m - 1].joker, pos, held)
        } else {
            seq![]
        }
    }
}

/// One scoring of the scored card at `pos`: rank, enhancement, edition, then
/// each joker that fires per scored card, in order.
pub open spec fn scored_card_ops(pos: int, scoring: Seq<Card>, jokers: Seq<JokerCard>, flags: JokerEffectFlags) -> Seq<
    ScoreOp,
> {
    card_ops(scoring[pos]) + jokers_on_scored(jokers, jokers.len() as int, pos, scoring, flags)
}

/// One turn of the held card at `pos`: Steel, then each joker that fires per
/// held card, in order.
pub open spec fn held_turn_ops(pos: int, held: Seq<Card>, jokers: Seq<JokerCard>) -> Seq<ScoreOp> {
    held_card_ops(held[pos]) + jokers_on_held(jokers, jokers.len() as int, pos, held)
}

/// How often a scored card is scored: once, and once more for each Sock And
/// Buskin when it is a face card (every card, under Pareidolia).
pub open spec fn scored_repeats(card: Card, jokers: Seq<JokerCard>, flags: JokerEffectFlags) -> nat {
    if card.rank.face() || flags.pareidolia {
        1 + count_joker(jokers, Joker::SockAndBuskin)
    } else {
        1
    }
}

/// The operations of the first `n` scored cards.
pub open spec fn scored_phase(scoring: Seq<Card>, n: int, jokers: Seq<JokerCard>, flags: JokerEffectFlags) -> Seq<
    ScoreOp,
>
    decreases n,
{
    if n <= 0 {
        seq![]
    } else {
        scored_phase(scoring, n - 1, jokers, flags) + repeat(
            scored_card_ops(n - 1, scoring, jokers, flags),
            scored_repeats(scoring[n - 1], jokers, flags),
        )
    }
}

/// The operations of the first `n` held cards: each card's turn, once and
/// once more for each Mime.
pub open spec fn held_phase(held: Seq<Card>, n: int, jokers: Seq<JokerCard>) -> Seq<ScoreOp>
    decreases n,
{
    if n <= 0 {
        seq![]
    } else {
        held_phase(held, n - 1, jokers) + repeat(held_turn_ops(n - 1, held, jokers), 1 + count_joker(jokers, Joker::Mime))
    }
}

/// The last-step operations of the first `m` jokers of the effective
/// sequence, `n_owned` jokers being owned.
pub open spec fn joker_phase(
    jokers: Seq<JokerCard>,
    m: int,
    played: Seq<Card>,
    held: Seq<Card>,
    scored: Seq<Card>,
    n_owned: nat,
    flags: JokerEffectFlags,
) -> Seq<ScoreOp>
    decreases m,
{
    if m <= 0 {
        seq![]
    } else {
        joker_phase(jokers, m - 1, played, held, scored, n_owned, flags) + joker_ops(
            jokers[m - 1],
            activation(jokers[m - 1].joker),
            played,
            held,
            scored,
            n_owned,
            flags,
        )
    }
}

/// The cards that score: every played card under Splash, else the best
/// hand's cards.
pub open spec fn scoring_cards(played: Seq<Card>, best: Seq<Card>, flags: JokerEffectFlags) -> Seq<Card> {
    if flags.splash {
        played
    } else {
        best
    }
}

/// The best hand's cards among `played`, owning `jokers`.
pub open spec fn best_cards(played: Seq<Card>, jokers: Seq<JokerCard>) -> Seq<Card> {
    cards_at(played, best_hand(played, flags_of(jokers)).1)
}

/// Every operation of a round after its base, in order: the scored cards,
/// then the held cards, then the jokers.
pub open spec fn round_ops(played: Seq<Card>, held: Seq<Card>, jokers: Seq<JokerCard>) -> Seq<ScoreOp> {
    let flags = flags_of(jokers);
    let eff = effective_jokers(jokers);
    let best = best_cards(played, jokers);
    let scoring = scoring_cards(played, best, flags);
    scored_phase(scoring, scoring.len() as int, eff, flags) + held_phase(held, held.len() as int, eff)
        + joker_phase(eff, eff.len() as int, played, held, best, jokers.len(), flags)
}

/// The score of a round: its best hand, that hand's base chips and mult,
/// and the operations that take the base to the final (chips, mult).
pub struct Scoring {
    pub hand: PokerHand,
    pub base_chips: u64,
    pub base_mult: u64,
    pub ops: Vec<ScoreOp>,
}

pub fn get_scoring_cards<'a>(
    cards_played: &'a Vec<Card>,
    best_hand_cards: &'a Vec<Card>,
    joker_effect_flags: &JokerEffectFlags,
) -> (r: &'a Vec<Card>)
    ensures
        r@ == scoring_cards(cards_played@, best_hand_cards@, *joker_effect_flags),
{
    if joker_effect_flags.splash {
        cards_played
    } else {
        best_hand_cards
    }
}

fn count_jokers(jokers: &Vec<JokerCard>, j: Joker) -> (r: usize)
    ensures
        r == count_joker(jokers@, j),
{
    let mut n: usize = 0;
    let mut i: usize = 0;
    while i < jokers.len()
        invariant
            i <= jokers@.len(),
            n <= i,
            n == count_joker(jokers@.take(i as int), j),
        decreases jokers@.len() - i,
    {
        assert(jokers@.take(i + 1).drop_last() =~= jokers@.take(i as int));
        if jokers[i].joker == j {
            n = n + 1;
        }
        i = i + 1;
    }
    assert(jokers@.take(jokers@.len() as int) =~= jokers@);
    n
}

fn push_all(ops: &mut Vec<ScoreOp>, s: &Vec<ScoreOp>)
    ensures
        final(ops)@ == old(ops)@ + s@,
{
    let mut i: usize = 0;
    while i < s.len()
        invariant
            i <= s@.len(),
            ops@ == old(ops)@ + s@.take(i as int),
        decreases s@.len() - i,
    {
        ops.push(s[i]);
        i = i + 1;
        assert(ops@ =~= old(ops)@ + s@.take(i as int));
    }
    assert(s@.take(s@.len() as int) =~= s@);
}

/// Appends `once`, then `extra` more copies of it.
fn push_repeated(ops: &mut Vec<ScoreOp>, once: &Vec<ScoreOp>, extra: usize)
    ensures
        final(ops)@ == old(ops)@ + repeat(once@, 1 + extra as nat),
{
    push_all(ops, once);
    assert(repeat(once@, 1) =~= once@) by {
        assert(repeat(once@, 0) =~= seq![]);
    }
    let mut r: usize = 0;
    while r < extra
        invariant
            r <= extra,
            ops@ == old(ops)@ + repeat(once@, 1 + r as nat),
        decreases extra - r,
    {
        push_all(ops, once);
        assert(ops@ =~= old(ops)@ + repeat(once@, 1 + (r + 1) as nat)) by {
            assert(repeat(once@, 1 + (r + 1) as nat) == repeat(once@, 1 + r as nat) + once@);
        }
        r = r + 1;
    }
}

/// Appends one scoring of the scored card at `pos`.
fn apply_card(
    ops: &mut Vec<ScoreOp>,
    pos: usize,
    cards: &Vec<Card>,
    jokers: &Vec<JokerCard>,
    joker_effects: &JokerEffectFlags,
)
    requires
        pos < cards@.len(),
    ensures
        final(ops)@ == old(ops)@ + scored_card_ops(pos as int, cards@, jokers@, *joker_effects),
{
    let card = &cards[pos];
    ops.push(ScoreOp::AddChips(card.rank.rank_value() as u128));
    apply_enhancement(ops, card);
    apply_edition(ops, card.edition);
    assert(ops@ =~= old(ops)@ + card_ops(cards@[pos as int]));
    let ghost base = ops@;
    let mut k: usize = 0;
    while k < jokers.len()
        invariant
            k <= jokers@.len(),
            pos < cards@.len(),
            ops@ == base + jokers_on_scored(jokers@, k as int, pos as int, cards@, *joker_effects),
        decreases jokers@.len() - k,
    {
        let joker_card = jokers[k];
        if get_joker_activation(&joker_card.joker) == JokerActivation::OnScore {
            let wrapper = JokerOnScoredWrapper { joker_card };
            wrapper.apply_effect(ops, pos, cards, joker_effects);
        }
        assert(ops@ =~= base + jokers_on_scored(jokers@, k + 1, pos as int, cards@, *joker_effects));
        k = k + 1;
    }
    assert(ops@ =~= old(ops)@ + scored_card_ops(pos as int, cards@, jokers@, *joker_effects));
}

/// Appends one turn of the held card at `pos`.
fn apply_in_hand_card(ops: &mut Vec<ScoreOp>, pos: usize, cards: &Vec<Card>, jokers: &Vec<JokerCard>)
    requires
        pos < cards@.len(),
    ensures
        final(ops)@ == old(ops)@ + held_turn_ops(pos as int, cards@, jokers@),
{
    apply_held_enhancement(ops, &cards[pos]);
    let ghost base = ops@;
    let mut k: usize = 0;
    while k < jokers.len()
        invariant
            k <= jokers@.len(),
            pos < cards@.len(),
            ops@ == base + jokers_on_held(jokers@, k as int, pos as int, cards@),
        decreases jokers@.len() - k,
    {
        let joker_card = jokers[k];
        if get_joker_activation(&joker_card.joker) == JokerActivation::OnHeld {
            let wrapper = JokerOnHeldWrapper { joker_card };
            wrapper.apply_effect(ops, pos, cards);
        }
        assert(ops@ =~= base + jokers_on_held(jokers@, k + 1, pos as int, cards@));
        k = k + 1;
    }
    assert(ops@ =~= old(ops)@ + held_turn_ops(pos as int, cards@, jokers@));
}

/// Scores a round: the best hand and its base, and every operation that
/// follows, in order.
pub fn calculate_score(round: Round) -> (r: Scoring)
    ensures
        r.hand == best_hand(round.cards_played@, flags_of(round.jokers@)).0,
        r.base_chips == r.hand.base().0,
        r.base_mult == r.hand.base().1,
        r.ops@ == round_ops(round.cards_played@, round.cards_held_in_hand@, round.jokers@),
{
    let cards_played = round.cards_played;
    let cards_held_in_hand = round.cards_held_in_hand;
    let jokers = round.jokers;
    let joker_effect_flags = set_joker_effects(&jokers);
    let joker_cards = apply_blueprint_jokers(&jokers);
    let counts = summarize(&cards_played);
    let (best_hand, best_hand_cards) = find_best_hand(&cards_played, &counts, &joker_effect_flags);
    let (base_chips, base_mult) = get_base_score(best_hand);
    let scoring = get_scoring_cards(&cards_played, &best_hand_cards, &joker_effect_flags);
    let socks = count_jokers(&joker_cards, Joker::SockAndBuskin);
    let mimes = count_jokers(&joker_cards, Joker::Mime);

    let ghost flags = joker_effect_flags;
    let ghost eff = joker_cards@;
    let mut ops: Vec<ScoreOp> = Vec::new();
    let mut j: usize = 0;
    while j < scoring.len()
        invariant
            j <= scoring@.len(),
            eff == joker_cards@,
            flags == joker_effect_flags,
            socks == count_joker(eff, Joker::SockAndBuskin),
            ops@ == scored_phase(scoring@, j as int, eff, flags),
        decreases scoring@.len() - j,
    {
        let mut once: Vec<ScoreOp> = Vec::new();
        apply_card(&mut once, j, scoring, &joker_cards, &joker_effect_flags);
        assert(once@ =~= scored_card_ops(j as int, scoring@, eff, flags));
        let card = &scoring[j];
        let extra = if card.rank.is_face() || joker_effect_flags.pareidolia {
            socks
        } else {
            0
        };
        push_repeated(&mut ops, &once, extra);
        assert(1 + extra as nat == scored_repeats(scoring@[j as int], eff, flags));
        assert(ops@ =~= scored_phase(scoring@, j + 1, eff, flags));
        j = j + 1;
    }
    let ghost after_scored = ops@;
    let mut i: usize = 0;
    while i < cards_held_in_hand.len()
        invariant
            i <= cards_held_in_hand@.len(),
            eff == joker_cards@,
            mimes == count_joker(eff, Joker::Mime),
            ops@ == after_scored + held_phase(cards_held_in_hand@, i as int, eff),
        decreases cards_held_in_hand@.len() - i,
    {
        let mut once: Vec<ScoreOp> = Vec::new();
        apply_in_hand_card(&mut once, i, &cards_held_in_hand, &joker_cards);
        assert(once@ =~= held_turn_ops(i as int, cards_held_in_hand@, eff));
        let ghost before = ops@;
        push_repeated(&mut ops, &once, mimes);
        assert(ops@ =~= after_scored + held_phase(cards_held_in_hand@, i + 1, eff));
        i = i + 1;
    }
    let ghost after_held = ops@;
    let mut k: usize = 0;
    while k < joker_cards.len()
        invariant
            k <= joker_cards@.len(),
            eff == joker_cards@,
            flags == joker_effect_flags,
            counts.summarizes(cards_played@),
            ops@ == after_held + joker_phase(
                eff,
                k as int,
                cards_played@,
                cards_held_in_hand@,
                best_hand_cards@,
                jokers@.len(),
                flags,
            ),
        decreases joker_cards@.len() - k,
    {
        let joker_card = joker_cards[k];
        let wrapper = JokerWrapper { joker_card, joker_activation: get_joker_activation(&joker_card.joker) };
        let ghost before = ops@;
        wrapper.apply_effect(
            &mut ops,
            &counts,
            &cards_played,
            &cards_held_in_hand,
            &best_hand_cards,
            &jokers,
            &joker_effect_flags,
        );
        assert(ops@ == before + joker_ops(
            eff[k as int],
            activation(eff[k as int].joker),
            cards_played@,
            cards_held_in_hand@,
            best_hand_cards@,
            jokers@.len(),
            flags,
        ));
        assert(ops@ =~= after_held + joker_phase(
            eff,
            k + 1,
            cards_played@,
            cards_held_in_hand@,
            best_hand_cards@,
            jokers@.len(),
            flags,
        ));
        k = k + 1;
    }
    Scoring { hand: best_hand, base_chips, base_mult, ops }
}


/// Each card of `cards` only adds its rank's chips: `AddChips` of each
/// card's value, in order.
pub open spec fn rank_chips(cards: Seq<Card>) -> Seq<ScoreOp> {
    Seq::new(cards.len(), |i: int| ScoreOp::AddChips(cards[i].rank.value() as u128))
}

pub open spec fn plain(cards: Seq<Card>) -> bool {
    forall|i: int| 0 <= i < cards.len() ==> (#[trigger] cards[i]).enhancement is None && cards[i].edition is None
}

proof fn lemma_plain_scored_phase(scoring: Seq<Card>, n: int)
    requires
        plain(scoring),
        0 <= n <= scoring.len(),
    ensures
        scored_phase(scoring, n, seq![], flags_of(seq![])) == rank_chips(scoring.take(n)),
    decreases n,
{
    let flags = flags_of(seq![]);
    if n > 0 {
        lemma_plain_scored_phase(scoring, n - 1);
        let card = scoring[n - 1];
        assert(flags.pareidolia == false);
        assert(count_joker(seq![], Joker::SockAndBuskin) == 0);
        let once = scored_card_ops(n - 1, scoring, seq![], flags);
        assert(once =~= seq![ScoreOp::AddChips(card.rank.value() as u128)]);
        assert(repeat(once, 1) =~= once) by {
            assert(repeat(once, 0) =~= seq![]);
        }
        assert(rank_chips(scoring.take(n)) =~= rank_chips(scoring.take(n - 1)) + once);
    } else {
        assert(rank_chips(scoring.take(0)) =~= seq![]);
    }
}

/// With no jokers and no held cards, a round of cards without enhancement
/// or edition adds to its hand's base chips exactly the rank value of each
/// card of the best hand, in order, and leaves the base mult as it is.
pub proof fn lemma_plain_round(played: Seq<Card>)
    requires
        plain(played),
    ensures
        round_ops(played, seq![], seq![]) == rank_chips(best_cards(played, seq![])),
{
    let jokers: Seq<JokerCard> = seq![];
    let flags = flags_of(jokers);
    assert(flags.splash == false);
    assert(effective_jokers(jokers) =~= seq![]);
    let best = best_cards(played, jokers);
    crate::hands::lemma_best_hand_in_range(played, flags);
    assert(plain(best)) by {
        assert forall|i: int| 0 <= i < best.len() implies (#[trigger] best[i]).enhancement is None
            && best[i].edition is None by {
            let p = best_hand(played, flags).1;
            assert(p[i] < played.len());
            assert(best[i] == played[p[i] as int]);
        }
    }
    lemma_plain_scored_phase(best, best.len() as int);
    assert(best.take(best.len() as int) =~= best);
    assert(held_phase(seq![], 0, seq![]) =~= seq![]);
    assert(joker_phase(seq![], 0, played, seq![], best, 0, flags) =~= seq![]);
    assert(round_ops(played, seq![], seq![]) =~= rank_chips(best));
}

} // verus!
