//! Jokers as the rules see them: when each one fires, the passive flags
//! that owned jokers raise, and the expansion of Blueprint copies.
use vstd::prelude::*;
use crate::card::{Joker, JokerCard};

verus! {

/// When in the scoring a joker fires.
#[derive(Clone, Copy, Debug, PartialEq, Eq, Structural, Hash)]
pub enum JokerActivation {
    /// Once per scoring, after every card.
    Independent,
    /// Once for each scored card, repeats included.
    OnScore,
    /// Once for each card held in hand, repeats included.
    OnHeld,
    /// Never: the joker only raises a passive flag.
    Other,
    /// Never: the joker's part is the copy inserted after it.
    Copy,
}

/// Passive rules that owned jokers switch on.
#[derive(Clone, Copy, Debug, PartialEq, Eq, Structural, Hash)]
pub struct JokerEffectFlags {
    pub four_fingers: bool,
    pub shortcut: bool,
    pub pareidolia: bool,
    pub splash: bool,
    pub smeared_joker: bool,
}

pub open spec fn activation(j: Joker) -> JokerActivation {
    match j {
        Joker::Joker | Joker::JollyJoker | Joker::ZanyJoker | Joker::MadJoker | Joker::CrazyJoker
        | Joker::DrollJoker | Joker::SlyJoker | Joker::WilyJoker | Joker::CleverJoker
        | Joker::DeviousJoker | Joker::CraftyJoker | Joker::AbstractJoker | Joker::Blackboard
        | Joker::FlowerPot => JokerActivation::Independent,
        Joker::GreedyJoker | Joker::LustyJoker | Joker::WrathfulJoker | Joker::GluttonousJoker
        | Joker::Fibonacci | Joker::ScaryFace | Joker::EvenSteven | Joker::OddTodd
        | Joker::Photograph | Joker::SmileyFace | Joker::SockAndBuskin => JokerActivation::OnScore,
        Joker::RaisedFist | Joker::Baron | Joker::Mime => JokerActivation::OnHeld,
        Joker::FourFingers | Joker::Shortcut | Joker::Pareidolia | Joker::Splash
        | Joker::SmearedJoker => JokerActivation::Other,
        Joker::Blueprint => JokerActivation::Copy,
    }
}

pub fn get_joker_activation(joker: &Joker) -> (r: JokerActivation)
    ensures
        r == activation(*joker),
{
    match joker {
        Joker::Joker | Joker::JollyJoker | Joker::ZanyJoker | Joker::MadJoker | Joker::CrazyJoker
        | Joker::DrollJoker | Joker::SlyJoker | Joker::WilyJoker | Joker::CleverJoker
        | Joker::DeviousJoker | Joker::CraftyJoker | Joker::AbstractJoker | Joker::Blackboard
        | Joker::FlowerPot => JokerActivation::Independent,
        Joker::GreedyJoker | Joker::LustyJoker | Joker::WrathfulJoker | Joker::GluttonousJoker
        | Joker::Fibonacci | Joker::ScaryFace | Joker::EvenSteven | Joker::OddTodd
        | Joker::Photograph | Joker::SmileyFace | Joker::SockAndBuskin => JokerActivation::OnScore,
        Joker::RaisedFist | Joker::Baron | Joker::Mime => JokerActivation::OnHeld,
        Joker::FourFingers | Joker::Shortcut | Joker::Pareidolia | Joker::Splash
        | Joker::SmearedJoker => JokerActivation::Other,
        Joker::Blueprint => JokerActivation::Copy,
    }
}

/// Some joker of `jokers` is `j`.
pub open spec fn owns(jokers: Seq<JokerCard>, j: Joker) -> bool {
    exists|i: int| 0 <= i < jokers.len() && jokers[i].joker == j
}

/// The flags raised by owning `jokers`: each is on exactly when its joker is
/// owned, wherever it stands and however often.
pub open spec fn flags_of(jokers: Seq<JokerCard>) -> JokerEffectFlags {
    JokerEffectFlags {
        four_fingers: owns(jokers, Joker::FourFingers),
        shortcut: owns(jokers, Joker::Shortcut),
        pareidolia: owns(jokers, Joker::Pareidolia),
        splash: owns(jokers, Joker::Splash),
        smeared_joker: owns(jokers, Joker::SmearedJoker),
    }
}

pub fn set_joker_effects(jokers: &Vec<JokerCard>) -> (r: JokerEffectFlags)
    ensures
        r == flags_of(jokers@),
{
    let mut flags = JokerEffectFlags {
        four_fingers: false,
        shortcut: false,
        pareidolia: false,
        splash: false,
        smeared_joker: false,
    };
    let mut i: usize = 0;
    while i < jokers.len()
        invariant
            i <= jokers@.len(),
            flags == flags_of(jokers@.take(i as int)),
        decreases jokers@.len() - i,
    {
        let ghost before = jokers@.take(i as int);
        let ghost after = jokers@.take(i + 1);
        assert(forall|t: int| 0 <= t < i ==> after[t] == before[t]);
        assert(after[i as int] == jokers@[i as int]);
        match jokers[i].joker {
            Joker::FourFingers => flags.four_fingers = true,
            Joker::Shortcut => flags.shortcut = true,
            Joker::Pareidolia => flags.pareidolia = true,
            Joker::Splash => flags.splash = true,
            Joker::SmearedJoker => flags.smeared_joker = true,
            _ => {},
        }
        assert(flags == flags_of(after));
        i = i + 1;
    }
    assert(jokers@.take(jokers@.len() as int) =~= jokers@);
    flags
}

/// The joker that a Blueprint standing before position `k` copies: the
/// first from `k` on that is no Blueprint, unless a passive joker or the end
/// comes first.
pub open spec fn copy_target(jokers: Seq<JokerCard>, k: int) -> Option<Joker>
    decreases jokers.len() - k,
{
    if k < 0 || k >= jokers.len() {
        None
    } else if jokers[k].joker == Joker::Blueprint {
        copy_target(jokers, k + 1)
    } else if activation(jokers[k].joker) == JokerActivation::Other {
        None
    } else {
        Some(jokers[k].joker)
    }
}

/// What the joker at position `i` becomes in the effective sequence: itself,
/// and after a Blueprint the copy of its target, without edition.
pub open spec fn expansion_of(jokers: Seq<JokerCard>, i: int) -> Seq<JokerCard> {
    if jokers[i].joker == Joker::Blueprint {
        match copy_target(jokers, i + 1) {
            Some(t) => seq![jokers[i], JokerCard { joker: t, edition: None }],
            None => seq![jokers[i]],
        }
    } else {
        seq![jokers[i]]
    }
}

/// The effective sequence of the first `n` jokers.
pub open spec fn expanded(jokers: Seq<JokerCard>, n: int) -> Seq<JokerCard>
    decreases n,
{
    if n <= 0 {
        seq![]
    } else {
        expanded(jokers, n - 1) + expansion_of(jokers, n - 1)
    }
}

pub open spec fn effective_jokers(jokers: Seq<JokerCard>) -> Seq<JokerCard> {
    expanded(jokers, jokers.len() as int)
}

fn find_copy_target(jokers: &Vec<JokerCard>, start: usize) -> (r: Option<Joker>)
    requires
        start <= jokers@.len(),
    ensures
        r == copy_target(jokers@, start as int),
{
    let mut t = start;
    while t < jokers.len()
        invariant
            start <= t <= jokers@.len(),
            copy_target(jokers@, start as int) == copy_target(jokers@, t as int),
        decreases jokers@.len() - t,
    {
        let j = jokers[t].joker;
        if j == Joker::Blueprint {
            t = t + 1;
        } else if get_joker_activation(&j) == JokerActivation::Other {
            return None;
        } else {
            return Some(j);
        }
    }
    None
}

/// The effective joker sequence: every owned joker in order, each Blueprint
/// followed by an edition-less copy of the joker it copies, if any.
pub fn apply_blueprint_jokers(joker_cards: &Vec<JokerCard>) -> (r: Vec<JokerCard>)
    ensures
        r@ == effective_jokers(joker_cards@),
{
    let mut resolved: Vec<JokerCard> = Vec::new();
    let mut i: usize = 0;
    while i < joker_cards.len()
        invariant
            i <= joker_cards@.len(),
            resolved@ == expanded(joker_cards@, i as int),
        decreases joker_cards@.len() - i,
    {
        let current = joker_cards[i];
        resolved.push(current);
        if current.joker == Joker::Blueprint {
            match find_copy_target(joker_cards, i + 1) {
                Some(t) => resolved.push(JokerCard::new(t, None)),
                None => {},
            }
        }
        assert(resolved@ =~= expanded(joker_cards@, i as int) + expansion_of(joker_cards@, i as int));
        i = i + 1;
    }
    resolved
}


proof fn lemma_expanded_len(jokers: Seq<JokerCard>, n: int)
    requires
        0 <= n <= jokers.len(),
    ensures
        n <= expanded(jokers, n).len() <= 2 * n,
    decreases n,
{
    if n > 0 {
        lemma_expanded_len(jokers, n - 1);
    }
}

/// The effective sequence keeps every owned joker and adds at most one copy
/// for each: its length lies between the owned length and twice that.
pub proof fn lemma_effective_length(jokers: Seq<JokerCard>)
    ensures
        jokers.len() <= effective_jokers(jokers).len() <= 2 * jokers.len(),
{
    lemma_expanded_len(jokers, jokers.len() as int);
}

} // verus!
