//! Detection of each poker hand among the played cards, and the choice of
//! the best one. A hand's contributing cards are given as positions in the
//! played sequence, so that two cards of equal value stay two cards.
//!
//! Where several ranks (or suits) qualify, the lowest rank (or the first of
//! Spades, Hearts, Clubs, Diamonds; of Black, Red) is taken.
use vstd::prelude::*;
use crate::card::{Card, PokerHand, Rank, Suit, SuitColor, rank_to_order};
use crate::counts::{CardCounts, rank_cnt, suit_cnt, wild_cnt, ranks_present, suits_present};
use crate::jokers::JokerEffectFlags;

verus! {

/// Which cards a hand collects.
#[derive(Clone, Copy, Debug, PartialEq, Eq, Structural)]
pub enum CardFilter {
    OfRank(Rank),
    SuitOrWild(Suit),
    ColorOrWild(SuitColor),
    WildOnly,
}

impl CardFilter {
    pub open spec fn admits(self, c: Card) -> bool {
        match self {
            CardFilter::OfRank(r) => c.rank == r,
            CardFilter::SuitOrWild(s) => c.suit == s || c.is_wild(),
            CardFilter::ColorOrWild(col) => c.suit.spec_color() == col || c.is_wild(),
            CardFilter::WildOnly => c.is_wild(),
        }
    }

    pub fn accepts(&self, c: &Card) -> (r: bool)
        ensures
            r == self.admits(*c),
    {
        match self {
            CardFilter::OfRank(r) => c.rank == *r,
            CardFilter::SuitOrWild(s) => c.suit == *s || c.wild(),
            CardFilter::ColorOrWild(col) => c.suit.color() == *col || c.wild(),
            CardFilter::WildOnly => c.wild(),
        }
    }
}

/// The first `limit` positions below `n`, in order, of cards that `f` admits.
pub open spec fn picked(cards: Seq<Card>, f: CardFilter, limit: nat, n: int) -> Seq<usize>
    decreases n,
{
    if n <= 0 {
        seq![]
    } else {
        let p = picked(cards, f, limit, n - 1);
        if p.len() < limit && f.admits(cards[n - 1]) {
            p.push((n - 1) as usize)
        } else {
            p
        }
    }
}

/// All positions of a sequence of `n` cards, in order.
pub open spec fn all_positions(n: nat) -> Seq<usize> {
    Seq::new(n, |i: int| i as usize)
}

pub open spec fn opt_view(o: Option<Vec<usize>>) -> Option<Seq<usize>> {
    match o {
        Some(v) => Some(v@),
        None => None,
    }
}

fn take_matching(cards: &Vec<Card>, f: CardFilter, limit: usize) -> (r: Vec<usize>)
    ensures
        r@ == picked(cards@, f, limit as nat, cards@.len() as int),
{
    let mut r: Vec<usize> = Vec::new();
    let mut i: usize = 0;
    while i < cards.len()
        invariant
            i <= cards@.len(),
            r@ == picked(cards@, f, limit as nat, i as int),
        decreases cards@.len() - i,
    {
        if r.len() < limit && f.accepts(&cards[i]) {
            r.push(i);
        }
        i = i + 1;
    }
    r
}

fn every_position(n: usize) -> (r: Vec<usize>)
    ensures
        r@ == all_positions(n as nat),
{
    let mut r: Vec<usize> = Vec::new();
    let mut i: usize = 0;
    while i < n
        invariant
            i <= n,
            r@ =~= all_positions(i as nat),
        decreases n - i,
    {
        r.push(i);
        i = i + 1;
    }
    r
}

/// The first suit of index `k` or later that occurs among the cards that are
/// not wild and, with the wild cards, reaches `req` cards.
pub open spec fn flush_suit_from(cards: Seq<Card>, req: nat, k: int) -> Option<int>
    decreases 4 - k,
{
    if k < 0 || k >= 4 {
        None
    } else if suit_cnt(cards, k) >= 1 && suit_cnt(cards, k) + wild_cnt(cards) >= req {
        Some(k)
    } else {
        flush_suit_from(cards, req, k + 1)
    }
}

pub open spec fn color_cnt(cards: Seq<Card>, col: SuitColor) -> nat {
    match col {
        SuitColor::Black => suit_cnt(cards, 0) + suit_cnt(cards, 2),
        SuitColor::Red => suit_cnt(cards, 1) + suit_cnt(cards, 3),
    }
}

/// Which cards make a flush of `req` cards, if one is there: a suit (under
/// `smeared`, a color) that occurs, joined by the wild cards; or, when every
/// card is wild, the wild cards alone.
pub open spec fn flush_filter(cards: Seq<Card>, req: nat, smeared: bool) -> Option<CardFilter> {
    let wild = wild_cnt(cards);
    let found = if smeared {
        if color_cnt(cards, SuitColor::Black) >= 1 && color_cnt(cards, SuitColor::Black) + wild >= req {
            Some(CardFilter::ColorOrWild(SuitColor::Black))
        } else if color_cnt(cards, SuitColor::Red) >= 1 && color_cnt(cards, SuitColor::Red) + wild >= req {
            Some(CardFilter::ColorOrWild(SuitColor::Red))
        } else {
            None
        }
    } else {
        match flush_suit_from(cards, req, 0) {
            Some(k) => Some(CardFilter::SuitOrWild(Suit::from_index(k))),
            None => None,
        }
    };
    if found is Some {
        found
    } else if suits_present(cards, 4) == 0 && wild >= req {
        Some(CardFilter::WildOnly)
    } else {
        None
    }
}

/// The flush of `req` cards: the first `req` cards, in played order, that
/// the flush's filter admits.
pub open spec fn flush_of(cards: Seq<Card>, req: nat, smeared: bool) -> Option<Seq<usize>> {
    match flush_filter(cards, req, smeared) {
        Some(f) => Some(picked(cards, f, req, cards.len() as int)),
        None => None,
    }
}

pub fn find_flush_cards(
    counts: &CardCounts,
    cards: &Vec<Card>,
    required_cards: usize,
    joker_effects: &JokerEffectFlags,
) -> (r: Option<Vec<usize>>)
    requires
        counts.summarizes(cards@),
    ensures
        opt_view(r) == flush_of(cards@, required_cards as nat, joker_effects.smeared_joker),
{
    let wild = counts.wild_count as u128;
    let req = required_cards as u128;
    let mut found: Option<CardFilter> = None;
    if joker_effects.smeared_joker {
        let black = counts.suit_count[0] as u128 + counts.suit_count[2] as u128;
        let red = counts.suit_count[1] as u128 + counts.suit_count[3] as u128;
        if black >= 1 && black + wild >= req {
            found = Some(CardFilter::ColorOrWild(SuitColor::Black));
        } else if red >= 1 && red + wild >= req {
            found = Some(CardFilter::ColorOrWild(SuitColor::Red));
        }
    } else {
        let mut k: usize = 0;
        while k < 4
            invariant
                k <= 4,
                counts.summarizes(cards@),
                wild == wild_cnt(cards@),
                req == required_cards,
                found is None ==> flush_suit_from(cards@, required_cards as nat, 0)
                    == flush_suit_from(cards@, required_cards as nat, k as int),
                found is Some ==> k == 4 && flush_suit_from(cards@, required_cards as nat, 0)
                    is Some && found == Some(CardFilter::SuitOrWild(Suit::from_index(
                    flush_suit_from(cards@, required_cards as nat, 0)->0,
                ))),
            decreases 4 - k,
        {
            let c = counts.suit_count[k] as u128;
            if c >= 1 && c + wild >= req {
                found = Some(CardFilter::SuitOrWild(Suit::from_suit_index(k)));
                k = 4;
            } else {
                k = k + 1;
            }
        }
    }
    if found.is_none() {
        let none_present = counts.suit_count[0] == 0 && counts.suit_count[1] == 0
            && counts.suit_count[2] == 0 && counts.suit_count[3] == 0;
        proof {
            reveal_with_fuel(suits_present, 5);
        }
        assert(none_present == (suits_present(cards@, 4) == 0));
        if none_present && wild >= req {
            found = Some(CardFilter::WildOnly);
        }
    }
    match found {
        Some(f) => Some(take_matching(cards, f, required_cards)),
        None => None,
    }
}


/// The flush among the played cards: of five cards, or under `four_fingers`
/// of four when no five-card flush is there.
pub open spec fn flush_cards(cards: Seq<Card>, flags: JokerEffectFlags) -> Option<Seq<usize>> {
    if flush_of(cards, 5, flags.smeared_joker) is Some {
        flush_of(cards, 5, flags.smeared_joker)
    } else if flags.four_fingers {
        flush_of(cards, 4, flags.smeared_joker)
    } else {
        None
    }
}

pub fn get_flush_cards(cards: &Vec<Card>, counts: &CardCounts, joker_effects: &JokerEffectFlags) -> (r:
    Option<Vec<usize>>)
    requires
        counts.summarizes(cards@),
    ensures
        opt_view(r) == flush_cards(cards@, *joker_effects),
{
    let five = find_flush_cards(counts, cards, 5, joker_effects);
    if five.is_some() {
        return five;
    }
    if joker_effects.four_fingers {
        return find_flush_cards(counts, cards, 4, joker_effects);
    }
    None
}

/// The window of `len` values of `sorted` from position `start` holds `v`.
pub open spec fn in_window(sorted: Seq<usize>, start: int, len: int, v: int) -> bool {
    exists|j: int| start <= j < start + len && sorted[j] == v
}

/// The first `limit` positions below `n`, in order, of cards whose order
/// lies in the window.
pub open spec fn picked_in_window(
    cards: Seq<Card>,
    sorted: Seq<usize>,
    start: int,
    len: int,
    low_ace: bool,
    n: int,
) -> Seq<usize>
    decreases n,
{
    if n <= 0 {
        seq![]
    } else {
        let p = picked_in_window(cards, sorted, start, len, low_ace, n - 1);
        if p.len() < len && in_window(sorted, start, len, cards[n - 1].rank.order(low_ace)) {
            p.push((n - 1) as usize)
        } else {
            p
        }
    }
}

/// The window of `len` values from `start` is a run: each step is one, or
/// under `shortcut` at most two.
pub open spec fn is_run(sorted: Seq<usize>, start: int, len: int, shortcut: bool) -> bool {
    forall|j: int|
        #![trigger sorted[j]]
        start <= j < start + len - 1 ==> if shortcut {
            sorted[j + 1] - sorted[j] <= 2
        } else {
            sorted[j + 1] == sorted[j] + 1
        }
}

/// The straight found in the windows of `len` values from position `start`
/// on: the cards of the first run whose window gives `len` cards.
pub open spec fn straight_from(
    sorted: Seq<usize>,
    len: int,
    cards: Seq<Card>,
    low_ace: bool,
    shortcut: bool,
    start: int,
) -> Option<Seq<usize>>
    decreases sorted.len() - start,
{
    if start < 0 || start >= sorted.len() || start + len > sorted.len() {
        None
    } else if is_run(sorted, start, len, shortcut) && picked_in_window(
        cards,
        sorted,
        start,
        len,
        low_ace,
        cards.len() as int,
    ).len() == len {
        Some(picked_in_window(cards, sorted, start, len, low_ace, cards.len() as int))
    } else {
        straight_from(sorted, len, cards, low_ace, shortcut, start + 1)
    }
}

/// `sorted` with every 14 taken out.
pub open spec fn without_high_ace(sorted: Seq<usize>) -> Seq<usize>
    decreases sorted.len(),
{
    if sorted.len() == 0 {
        seq![]
    } else if sorted.last() == 14 {
        without_high_ace(sorted.drop_last())
    } else {
        without_high_ace(sorted.drop_last()).push(sorted.last())
    }
}

/// The straight of `len` cards: first with Ace high, then, where an Ace is
/// there, with Ace low (1 in front, 14 taken out).
pub open spec fn consecutive(sorted: Seq<usize>, len: int, cards: Seq<Card>, shortcut: bool) -> Option<
    Seq<usize>,
> {
    if straight_from(sorted, len, cards, false, shortcut, 0) is Some {
        straight_from(sorted, len, cards, false, shortcut, 0)
    } else if sorted.contains(14) {
        straight_from(seq![1usize] + without_high_ace(sorted), len, cards, true, shortcut, 0)
    } else {
        None
    }
}

pub open spec fn strictly_sorted_orders(sorted: Seq<usize>) -> bool {
    &&& forall|j: int| 0 <= j < sorted.len() ==> 1 <= #[trigger] sorted[j] && sorted[j] <= 14
    &&& forall|i: int, j: int| 0 <= i < j < sorted.len() ==> #[trigger] sorted[i] < #[trigger] sorted[j]
}

fn window_holds(sorted: &Vec<usize>, start: usize, len: usize, v: usize) -> (r: bool)
    requires
        start + len <= sorted@.len(),
    ensures
        r == in_window(sorted@, start as int, len as int, v as int),
{
    let n = sorted.len();
    let end = start + len;
    let mut j = start;
    while j < end
        invariant
            end == start + len,
            start <= j <= start + len,
            start + len <= n,
            n == sorted@.len(),
            forall|t: int| start <= t < j ==> sorted@[t] != v,
        decreases start + len - j,
    {
        if sorted[j] == v {
            return true;
        }
        j = j + 1;
    }
    false
}

fn window_is_run(sorted: &Vec<usize>, start: usize, len: usize, shortcut: bool) -> (r: bool)
    requires
        start + len <= sorted@.len(),
        len >= 1,
        forall|j: int| 0 <= j < sorted@.len() ==> sorted@[j] <= 14,
    ensures
        r == is_run(sorted@, start as int, len as int, shortcut),
{
    let n = sorted.len();
    let end = start + len;
    let mut j = start;
    while j + 1 < end
        invariant
            end == start + len,
            start <= j < start + len,
            start + len <= n,
            n == sorted@.len(),
            forall|j: int| 0 <= j < sorted@.len() ==> sorted@[j] <= 14,
            forall|t: int|
                #![trigger sorted@[t]]
                start <= t < j ==> if shortcut {
                    sorted@[t + 1] - sorted@[t] <= 2
                } else {
                    sorted@[t + 1] == sorted@[t] + 1
                },
        decreases start + len - j,
    {
        let ok = if shortcut {
            sorted[j + 1] <= sorted[j] + 2
        } else {
            sorted[j + 1] == sorted[j] + 1
        };
        if !ok {
            return false;
        }
        j = j + 1;
    }
    true
}

fn take_in_window(cards: &Vec<Card>, sorted: &Vec<usize>, start: usize, len: usize, low_ace: bool) -> (r:
    Vec<usize>)
    requires
        start + len <= sorted@.len(),
    ensures
        r@ == picked_in_window(cards@, sorted@, start as int, len as int, low_ace, cards@.len() as int),
{
    let mut r: Vec<usize> = Vec::new();
    let mut i: usize = 0;
    while i < cards.len()
        invariant
            i <= cards@.len(),
            start + len <= sorted@.len(),
            r@ == picked_in_window(cards@, sorted@, start as int, len as int, low_ace, i as int),
        decreases cards@.len() - i,
    {
        if r.len() < len {
            let v = rank_to_order(&cards[i].rank, low_ace);
            if window_holds(sorted, start, len, v) {
                r.push(i);
            }
        }
        i = i + 1;
    }
    r
}

fn find_sequence_with_ace(
    sorted_ranks: &Vec<usize>,
    length: usize,
    cards: &Vec<Card>,
    is_low_ace: bool,
    joker_effects: &JokerEffectFlags,
) -> (r: Option<Vec<usize>>)
    requires
        length >= 1,
        forall|j: int| 0 <= j < sorted_ranks@.len() ==> sorted_ranks@[j] <= 14,
    ensures
        opt_view(r) == straight_from(
            sorted_ranks@,
            length as int,
            cards@,
            is_low_ace,
            joker_effects.shortcut,
            0,
        ),
{
    if length > sorted_ranks.len() {
        return None;
    }
    let n = sorted_ranks.len();
    let last_start = n - length;
    let mut start: usize = 0;
    while start <= last_start
        invariant
            n == sorted_ranks@.len(),
            last_start == sorted_ranks@.len() - length,
            length >= 1,
            length <= sorted_ranks@.len(),
            start + length <= sorted_ranks@.len() + 1,
            forall|j: int| 0 <= j < sorted_ranks@.len() ==> sorted_ranks@[j] <= 14,
            straight_from(sorted_ranks@, length as int, cards@, is_low_ace, joker_effects.shortcut, 0)
                == straight_from(
                sorted_ranks@,
                length as int,
                cards@,
                is_low_ace,
                joker_effects.shortcut,
                start as int,
            ),
        decreases sorted_ranks@.len() + 1 - start,
    {
        if window_is_run(sorted_ranks, start, length, joker_effects.shortcut) {
            let picked = take_in_window(cards, sorted_ranks, start, length, is_low_ace);
            if picked.len() == length {
                return Some(picked);
            }
        }
        start = start + 1;
    }
    None
}

/// The straight of `length` cards among `cards`, given the sorted distinct
/// orders of their ranks with Ace high.
pub fn find_consecutive_sequence(
    sorted_ranks: &Vec<usize>,
    length: usize,
    cards: &Vec<Card>,
    joker_effects: &JokerEffectFlags,
) -> (r: Option<Vec<usize>>)
    requires
        length >= 1,
        strictly_sorted_orders(sorted_ranks@),
    ensures
        opt_view(r) == consecutive(sorted_ranks@, length as int, cards@, joker_effects.shortcut),
{
    let high = find_sequence_with_ace(sorted_ranks, length, cards, false, joker_effects);
    if high.is_some() {
        return high;
    }
    let mut has_ace = false;
    let mut i: usize = 0;
    while i < sorted_ranks.len()
        invariant
            i <= sorted_ranks@.len(),
            has_ace == exists|j: int| 0 <= j < i && sorted_ranks@[j] == 14,
        decreases sorted_ranks@.len() - i,
    {
        if sorted_ranks[i] == 14 {
            has_ace = true;
        }
        i = i + 1;
    }
    if !has_ace {
        return None;
    }
    let mut adjusted: Vec<usize> = Vec::new();
    adjusted.push(1);
    let mut k: usize = 0;
    while k < sorted_ranks.len()
        invariant
            k <= sorted_ranks@.len(),
            adjusted@ == seq![1usize] + without_high_ace(sorted_ranks@.take(k as int)),
            forall|j: int| 0 <= j < adjusted@.len() ==> adjusted@[j] <= 14,
            strictly_sorted_orders(sorted_ranks@),
        decreases sorted_ranks@.len() - k,
    {
        assert(sorted_ranks@.take(k + 1).drop_last() =~= sorted_ranks@.take(k as int));
        let v = sorted_ranks[k];
        assert(v <= 14);
        if v != 14 {
            adjusted.push(v);
        }
        assert(adjusted@ =~= seq![1usize] + without_high_ace(sorted_ranks@.take(k + 1)));
        k = k + 1;
    }
    assert(sorted_ranks@.take(sorted_ranks@.len() as int) =~= sorted_ranks@);
    find_sequence_with_ace(&adjusted, length, cards, true, joker_effects)
}


/// The distinct orders, Ace high, of the ranks of index below `n` that occur
/// in `cards`, ascending.
pub open spec fn present_orders(cards: Seq<Card>, n: int) -> Seq<usize>
    decreases n,
{
    if n <= 0 {
        seq![]
    } else if rank_cnt(cards, n - 1) > 0 {
        present_orders(cards, n - 1).push((n + 1) as usize)
    } else {
        present_orders(cards, n - 1)
    }
}

/// The straight among the played cards: of five cards, or under
/// `four_fingers` of four when no five-card straight is there.
pub open spec fn straight_cards(cards: Seq<Card>, flags: JokerEffectFlags) -> Option<Seq<usize>> {
    let sorted = present_orders(cards, 13);
    if consecutive(sorted, 5, cards, flags.shortcut) is Some {
        consecutive(sorted, 5, cards, flags.shortcut)
    } else if flags.four_fingers {
        consecutive(sorted, 4, cards, flags.shortcut)
    } else {
        None
    }
}

fn rank_orders(counts: &CardCounts, Ghost(cards): Ghost<Seq<Card>>) -> (r: Vec<usize>)
    requires
        counts.summarizes(cards),
    ensures
        r@ == present_orders(cards, 13),
        strictly_sorted_orders(r@),
{
    let mut r: Vec<usize> = Vec::new();
    let mut k: usize = 0;
    while k < 13
        invariant
            k <= 13,
            counts.summarizes(cards),
            r@ == present_orders(cards, k as int),
            forall|j: int| 0 <= j < r@.len() ==> 2 <= #[trigger] r@[j] && r@[j] <= k + 1,
            forall|i: int, j: int| 0 <= i < j < r@.len() ==> #[trigger] r@[i] < #[trigger] r@[j],
        decreases 13 - k,
    {
        if counts.rank_count[k] > 0 {
            r.push(k + 2);
        }
        k = k + 1;
    }
    r
}

pub fn get_straight_cards(cards: &Vec<Card>, counts: &CardCounts, joker_effects: &JokerEffectFlags) -> (r:
    Option<Vec<usize>>)
    requires
        counts.summarizes(cards@),
    ensures
        opt_view(r) == straight_cards(cards@, *joker_effects),
{
    let rank_values = rank_orders(counts, Ghost(cards@));
    let five = find_consecutive_sequence(&rank_values, 5, cards, joker_effects);
    if five.is_some() {
        return five;
    }
    if joker_effects.four_fingers {
        return find_consecutive_sequence(&rank_values, 4, cards, joker_effects);
    }
    None
}

/// The lowest rank index from `k` on that occurs at least `t` times.
pub open spec fn first_rank_at_least(cards: Seq<Card>, t: nat, k: int) -> Option<int>
    decreases 13 - k,
{
    if k < 0 || k >= 13 {
        None
    } else if rank_cnt(cards, k) >= t {
        Some(k)
    } else {
        first_rank_at_least(cards, t, k + 1)
    }
}

/// `t` cards of one rank: the first `t` in played order of the lowest rank
/// that occurs at least `t` times.
pub open spec fn kind_cards(cards: Seq<Card>, t: nat) -> Option<Seq<usize>> {
    match first_rank_at_least(cards, t, 0) {
        Some(k) => Some(picked(cards, CardFilter::OfRank(Rank::from_index(k)), t, cards.len() as int)),
        None => None,
    }
}

/// The rank indices below `n` that occur exactly `c` times, ascending.
pub open spec fn ranks_with_exactly(cards: Seq<Card>, c: nat, n: int) -> Seq<usize>
    decreases n,
{
    if n <= 0 {
        seq![]
    } else if rank_cnt(cards, n - 1) == c {
        ranks_with_exactly(cards, c, n - 1).push((n - 1) as usize)
    } else {
        ranks_with_exactly(cards, c, n - 1)
    }
}

fn first_rank_with_count(counts: &CardCounts, t: usize, Ghost(cards): Ghost<Seq<Card>>) -> (r: Option<usize>)
    requires
        counts.summarizes(cards),
    ensures
        match r {
            Some(k) => first_rank_at_least(cards, t as nat, 0) == Some(k as int) && k < 13,
            None => first_rank_at_least(cards, t as nat, 0) is None,
        },
{
    let mut k: usize = 0;
    while k < 13
        invariant
            k <= 13,
            counts.summarizes(cards),
            first_rank_at_least(cards, t as nat, 0) == first_rank_at_least(cards, t as nat, k as int),
        decreases 13 - k,
    {
        if counts.rank_count[k] >= t {
            return Some(k);
        }
        k = k + 1;
    }
    None
}

fn ranks_with_count(counts: &CardCounts, c: usize, Ghost(cards): Ghost<Seq<Card>>) -> (r: Vec<usize>)
    requires
        counts.summarizes(cards),
    ensures
        r@ == ranks_with_exactly(cards, c as nat, 13),
        forall|j: int| 0 <= j < r@.len() ==> #[trigger] r@[j] < 13,
{
    let mut r: Vec<usize> = Vec::new();
    let mut k: usize = 0;
    while k < 13
        invariant
            k <= 13,
            counts.summarizes(cards),
            r@ == ranks_with_exactly(cards, c as nat, k as int),
            forall|j: int| 0 <= j < r@.len() ==> #[trigger] r@[j] < k,
        decreases 13 - k,
    {
        if counts.rank_count[k] == c {
            r.push(k);
        }
        k = k + 1;
    }
    r
}

fn distinct_ranks(counts: &CardCounts, Ghost(cards): Ghost<Seq<Card>>) -> (r: usize)
    requires
        counts.summarizes(cards),
    ensures
        r == ranks_present(cards, 13),
{
    let mut n: usize = 0;
    let mut k: usize = 0;
    while k < 13
        invariant
            k <= 13,
            n <= k,
            counts.summarizes(cards),
            n == ranks_present(cards, k as int),
        decreases 13 - k,
    {
        if counts.rank_count[k] > 0 {
            n = n + 1;
        }
        k = k + 1;
    }
    n
}

fn distinct_suits(counts: &CardCounts, Ghost(cards): Ghost<Seq<Card>>) -> (r: usize)
    requires
        counts.summarizes(cards),
    ensures
        r == suits_present(cards, 4),
{
    let mut n: usize = 0;
    let mut k: usize = 0;
    while k < 4
        invariant
            k <= 4,
            n <= k,
            counts.summarizes(cards),
            n == suits_present(cards, k as int),
        decreases 4 - k,
    {
        if counts.suit_count[k] > 0 {
            n = n + 1;
        }
        k = k + 1;
    }
    n
}

fn of_a_kind(cards: &Vec<Card>, counts: &CardCounts, t: usize) -> (r: Option<Vec<usize>>)
    requires
        counts.summarizes(cards@),
    ensures
        opt_view(r) == kind_cards(cards@, t as nat),
{
    match first_rank_with_count(counts, t, Ghost(cards@)) {
        Some(k) => Some(take_matching(cards, CardFilter::OfRank(Rank::from_order_index(k)), t)),
        None => None,
    }
}

pub fn get_four_of_a_kind_cards(cards: &Vec<Card>, counts: &CardCounts) -> (r: Option<Vec<usize>>)
    requires
        counts.summarizes(cards@),
    ensures
        opt_view(r) == kind_cards(cards@, 4),
{
    of_a_kind(cards, counts, 4)
}

pub fn get_three_of_a_kind_cards(cards: &Vec<Card>, counts: &CardCounts) -> (r: Option<Vec<usize>>)
    requires
        counts.summarizes(cards@),
    ensures
        opt_view(r) == kind_cards(cards@, 3),
{
    of_a_kind(cards, counts, 3)
}

pub fn get_pair_cards(cards: &Vec<Card>, counts: &CardCounts) -> (r: Option<Vec<usize>>)
    requires
        counts.summarizes(cards@),
    ensures
        opt_view(r) == kind_cards(cards@, 2),
{
    of_a_kind(cards, counts, 2)
}

/// Two pairs: exactly two ranks occur exactly twice; the cards of the lower
/// rank's pair come first.
pub open spec fn two_pair_cards(cards: Seq<Card>) -> Option<Seq<usize>> {
    let p = ranks_with_exactly(cards, 2, 13);
    if p.len() == 2 {
        Some(
            picked(cards, CardFilter::OfRank(Rank::from_index(p[0] as int)), 2, cards.len() as int)
                + picked(cards, CardFilter::OfRank(Rank::from_index(p[1] as int)), 2, cards.len() as int),
        )
    } else {
        None
    }
}

pub fn get_two_pair_cards(cards: &Vec<Card>, counts: &CardCounts) -> (r: Option<Vec<usize>>)
    requires
        counts.summarizes(cards@),
    ensures
        opt_view(r) == two_pair_cards(cards@),
{
    let pairs = ranks_with_count(counts, 2, Ghost(cards@));
    if pairs.len() != 2 {
        return None;
    }
    let mut both = take_matching(cards, CardFilter::OfRank(Rank::from_order_index(pairs[0])), 2);
    let mut second = take_matching(cards, CardFilter::OfRank(Rank::from_order_index(pairs[1])), 2);
    both.append(&mut second);
    Some(both)
}

/// A full house: exactly two ranks occur, one three times and one twice.
pub open spec fn is_full_house(cards: Seq<Card>) -> bool {
    &&& ranks_present(cards, 13) == 2
    &&& ranks_with_exactly(cards, 3, 13).len() > 0
    &&& ranks_with_exactly(cards, 2, 13).len() > 0
}

pub fn get_full_house_cards(cards: &Vec<Card>, counts: &CardCounts) -> (r: Option<Vec<usize>>)
    requires
        counts.summarizes(cards@),
    ensures
        opt_view(r) == if is_full_house(cards@) {
            Some(all_positions(cards@.len()))
        } else {
            None
        },
{
    if distinct_ranks(counts, Ghost(cards@)) != 2 {
        return None;
    }
    let triples = ranks_with_count(counts, 3, Ghost(cards@));
    let pairs = ranks_with_count(counts, 2, Ghost(cards@));
    if triples.len() > 0 && pairs.len() > 0 {
        Some(every_position(cards.len()))
    } else {
        None
    }
}

/// Five of a kind: some rank occurs exactly five times and more than one
/// suit occurs among the cards that are not wild.
pub open spec fn is_five_of_a_kind(cards: Seq<Card>) -> bool {
    ranks_with_exactly(cards, 5, 13).len() > 0 && suits_present(cards, 4) > 1
}

pub fn get_five_of_a_kind_cards(cards: &Vec<Card>, counts: &CardCounts) -> (r: Option<Vec<usize>>)
    requires
        counts.summarizes(cards@),
    ensures
        opt_view(r) == if is_five_of_a_kind(cards@) {
            Some(all_positions(cards@.len()))
        } else {
            None
        },
{
    let fives = ranks_with_count(counts, 5, Ghost(cards@));
    if fives.len() > 0 && distinct_suits(counts, Ghost(cards@)) > 1 {
        Some(every_position(cards.len()))
    } else {
        None
    }
}

/// A flush five: a single rank occurs and a flush is there.
pub open spec fn is_flush_five(cards: Seq<Card>, flags: JokerEffectFlags) -> bool {
    ranks_present(cards, 13) == 1 && flush_cards(cards, flags) is Some
}

pub fn get_flush_five_cards(cards: &Vec<Card>, counts: &CardCounts, joker_effects: &JokerEffectFlags) -> (r:
    Option<Vec<usize>>)
    requires
        counts.summarizes(cards@),
    ensures
        opt_view(r) == if is_flush_five(cards@, *joker_effects) {
            Some(all_positions(cards@.len()))
        } else {
            None
        },
{
    if distinct_ranks(counts, Ghost(cards@)) == 1 {
        if get_flush_cards(cards, counts, joker_effects).is_some() {
            return Some(every_position(cards.len()));
        }
    }
    None
}

/// A flush house: a full house that is also a flush.
pub open spec fn is_flush_house(cards: Seq<Card>, flags: JokerEffectFlags) -> bool {
    is_full_house(cards) && flush_cards(cards, flags) is Some
}

pub fn get_flush_house_cards(cards: &Vec<Card>, counts: &CardCounts, joker_effects: &JokerEffectFlags) -> (r:
    Option<Vec<usize>>)
    requires
        counts.summarizes(cards@),
    ensures
        opt_view(r) == if is_flush_house(cards@, *joker_effects) {
            Some(all_positions(cards@.len()))
        } else {
            None
        },
{
    if get_full_house_cards(cards, counts).is_some() {
        if get_flush_cards(cards, counts, joker_effects).is_some() {
            return Some(every_position(cards.len()));
        }
    }
    None
}


/// The positions of `a`, in order, that `b` holds too.
pub open spec fn common(a: Seq<usize>, b: Seq<usize>) -> Seq<usize>
    decreases a.len(),
{
    if a.len() == 0 {
        seq![]
    } else if b.contains(a.last()) {
        common(a.drop_last(), b).push(a.last())
    } else {
        common(a.drop_last(), b)
    }
}

/// A straight flush: a flush and a straight are both there. Under
/// `four_fingers`, when both have four cards and they are the same four
/// cards, those four; in every other case all played cards.
pub open spec fn straight_flush_cards(cards: Seq<Card>, flags: JokerEffectFlags) -> Option<Seq<usize>> {
    match (flush_cards(cards, flags), straight_cards(cards, flags)) {
        (Some(f), Some(s)) => if flags.four_fingers && f.len() == 4 && s.len() == 4 && common(f, s).len()
            == 4 {
            Some(common(f, s))
        } else {
            Some(all_positions(cards.len()))
        },
        _ => None,
    }
}

fn holds_position(v: &Vec<usize>, p: usize) -> (r: bool)
    ensures
        r == v@.contains(p),
{
    let mut i: usize = 0;
    while i < v.len()
        invariant
            i <= v@.len(),
            forall|j: int| 0 <= j < i ==> v@[j] != p,
        decreases v@.len() - i,
    {
        if v[i] == p {
            return true;
        }
        i = i + 1;
    }
    false
}

fn common_positions(a: &Vec<usize>, b: &Vec<usize>) -> (r: Vec<usize>)
    ensures
        r@ == common(a@, b@),
{
    let mut r: Vec<usize> = Vec::new();
    let mut i: usize = 0;
    while i < a.len()
        invariant
            i <= a@.len(),
            r@ == common(a@.take(i as int), b@),
        decreases a@.len() - i,
    {
        assert(a@.take(i + 1).drop_last() =~= a@.take(i as int));
        if holds_position(b, a[i]) {
            r.push(a[i]);
        }
        i = i + 1;
    }
    assert(a@.take(a@.len() as int) =~= a@);
    r
}

pub fn get_straight_flush_cards(cards: &Vec<Card>, counts: &CardCounts, joker_effects: &JokerEffectFlags) -> (r:
    Option<Vec<usize>>)
    requires
        counts.summarizes(cards@),
    ensures
        opt_view(r) == straight_flush_cards(cards@, *joker_effects),
{
    let flush = get_flush_cards(cards, counts, joker_effects);
    let straight = get_straight_cards(cards, counts, joker_effects);
    match (flush, straight) {
        (Some(f), Some(s)) => {
            if joker_effects.four_fingers && f.len() == 4 && s.len() == 4 {
                let both = common_positions(&f, &s);
                if both.len() == 4 {
                    return Some(both);
                }
            }
            Some(every_position(cards.len()))
        },
        _ => None,
    }
}

/// The position of the highest card below `n` (Ace high); among equals, the
/// last one.
pub open spec fn highest_upto(cards: Seq<Card>, n: int) -> int
    decreases n,
{
    if n <= 1 {
        0
    } else {
        let b = highest_upto(cards, n - 1);
        if cards[n - 1].rank.order(false) >= cards[b].rank.order(false) {
            n - 1
        } else {
            b
        }
    }
}

pub proof fn lemma_highest_in_range(cards: Seq<Card>, n: int)
    requires
        n >= 1,
    ensures
        0 <= highest_upto(cards, n) < n,
    decreases n,
{
    if n > 1 {
        lemma_highest_in_range(cards, n - 1);
    }
}

/// The high card: the single highest card, or nothing when no card is played.
pub open spec fn high_card(cards: Seq<Card>) -> Option<Seq<usize>> {
    if cards.len() == 0 {
        None
    } else {
        Some(seq![highest_upto(cards, cards.len() as int) as usize])
    }
}

pub fn get_high_card(cards: &Vec<Card>) -> (r: Option<Vec<usize>>)
    ensures
        opt_view(r) == high_card(cards@),
{
    if cards.len() == 0 {
        return None;
    }
    let mut best: usize = 0;
    let mut i: usize = 1;
    while i < cards.len()
        invariant
            1 <= i <= cards@.len(),
            best == highest_upto(cards@, i as int),
            best < i,
        decreases cards@.len() - i,
    {
        if rank_to_order(&cards[i].rank, false) >= rank_to_order(&cards[best].rank, false) {
            best = i;
        }
        i = i + 1;
    }
    let mut r: Vec<usize> = Vec::new();
    r.push(best);
    assert(r@ =~= seq![best]);
    Some(r)
}

/// The best hand among the played cards and the positions of its cards: the
/// first hand, from the highest down, that is there.
pub open spec fn best_hand(cards: Seq<Card>, flags: JokerEffectFlags) -> (PokerHand, Seq<usize>) {
    let all = all_positions(cards.len());
    if is_flush_five(cards, flags) {
        (PokerHand::FlushFive, all)
    } else if is_flush_house(cards, flags) {
        (PokerHand::FlushHouse, all)
    } else if is_five_of_a_kind(cards) {
        (PokerHand::FiveOfAKind, all)
    } else if straight_flush_cards(cards, flags) is Some {
        (PokerHand::StraightFlush, straight_flush_cards(cards, flags)->0)
    } else if kind_cards(cards, 4) is Some {
        (PokerHand::FourOfAKind, kind_cards(cards, 4)->0)
    } else if is_full_house(cards) {
        (PokerHand::FullHouse, all)
    } else if flush_cards(cards, flags) is Some {
        (PokerHand::Flush, flush_cards(cards, flags)->0)
    } else if straight_cards(cards, flags) is Some {
        (PokerHand::Straight, straight_cards(cards, flags)->0)
    } else if kind_cards(cards, 3) is Some {
        (PokerHand::ThreeOfAKind, kind_cards(cards, 3)->0)
    } else if two_pair_cards(cards) is Some {
        (PokerHand::TwoPair, two_pair_cards(cards)->0)
    } else if kind_cards(cards, 2) is Some {
        (PokerHand::Pair, kind_cards(cards, 2)->0)
    } else if high_card(cards) is Some {
        (PokerHand::HighCard, high_card(cards)->0)
    } else {
        (PokerHand::HighCard, seq![])
    }
}

fn best_hand_positions(cards: &Vec<Card>, counts: &CardCounts, joker_effects: &JokerEffectFlags) -> (r: (
    PokerHand,
    Vec<usize>,
))
    requires
        counts.summarizes(cards@),
    ensures
        (r.0, r.1@) == best_hand(cards@, *joker_effects),
{
    if let Some(c) = get_flush_five_cards(cards, counts, joker_effects) {
        return (PokerHand::FlushFive, c);
    }
    if let Some(c) = get_flush_house_cards(cards, counts, joker_effects) {
        return (PokerHand::FlushHouse, c);
    }
    if let Some(c) = get_five_of_a_kind_cards(cards, counts) {
        return (PokerHand::FiveOfAKind, c);
    }
    if let Some(c) = get_straight_flush_cards(cards, counts, joker_effects) {
        return (PokerHand::StraightFlush, c);
    }
    if let Some(c) = get_four_of_a_kind_cards(cards, counts) {
        return (PokerHand::FourOfAKind, c);
    }
    if let Some(c) = get_full_house_cards(cards, counts) {
        return (PokerHand::FullHouse, c);
    }
    if let Some(c) = get_flush_cards(cards, counts, joker_effects) {
        return (PokerHand::Flush, c);
    }
    if let Some(c) = get_straight_cards(cards, counts, joker_effects) {
        return (PokerHand::Straight, c);
    }
    if let Some(c) = get_three_of_a_kind_cards(cards, counts) {
        return (PokerHand::ThreeOfAKind, c);
    }
    if let Some(c) = get_two_pair_cards(cards, counts) {
        return (PokerHand::TwoPair, c);
    }
    if let Some(c) = get_pair_cards(cards, counts) {
        return (PokerHand::Pair, c);
    }
    if let Some(c) = get_high_card(cards) {
        return (PokerHand::HighCard, c);
    }
    (PokerHand::HighCard, Vec::new())
}

/// The cards at `positions` of `cards`, in that order.
pub open spec fn cards_at(cards: Seq<Card>, positions: Seq<usize>) -> Seq<Card> {
    Seq::new(positions.len(), |i: int| cards[positions[i] as int])
}

/// The best hand among the played cards and its contributing cards, in order.
pub fn find_best_hand(cards: &Vec<Card>, counts: &CardCounts, joker_effects: &JokerEffectFlags) -> (r: (
    PokerHand,
    Vec<Card>,
))
    requires
        counts.summarizes(cards@),
    ensures
        r.0 == best_hand(cards@, *joker_effects).0,
        r.1@ == cards_at(cards@, best_hand(cards@, *joker_effects).1),
{
    let (hand, positions) = best_hand_positions(cards, counts, joker_effects);
    proof {
        lemma_best_hand_in_range(cards@, *joker_effects);
    }
    let mut r: Vec<Card> = Vec::new();
    let mut i: usize = 0;
    while i < positions.len()
        invariant
            i <= positions@.len(),
            forall|j: int| 0 <= j < positions@.len() ==> #[trigger] positions@[j] < cards@.len(),
            r@ =~= cards_at(cards@, positions@.take(i as int)),
        decreases positions@.len() - i,
    {
        r.push(cards[positions[i]]);
        i = i + 1;
    }
    assert(positions@.take(positions@.len() as int) =~= positions@);
    (hand, r)
}


/// Every position of `p` is below `n`.
pub open spec fn within(p: Seq<usize>, n: int) -> bool {
    forall|j: int| 0 <= j < p.len() ==> #[trigger] p[j] < n
}

proof fn lemma_picked_within(cards: Seq<Card>, f: CardFilter, limit: nat, n: int)
    ensures
        within(picked(cards, f, limit, n), n),
    decreases n,
{
    if n > 0 {
        lemma_picked_within(cards, f, limit, n - 1);
    }
}

proof fn lemma_window_within(cards: Seq<Card>, sorted: Seq<usize>, start: int, len: int, low: bool, n: int)
    ensures
        within(picked_in_window(cards, sorted, start, len, low, n), n),
    decreases n,
{
    if n > 0 {
        lemma_window_within(cards, sorted, start, len, low, n - 1);
    }
}

proof fn lemma_straight_from_within(
    sorted: Seq<usize>,
    len: int,
    cards: Seq<Card>,
    low: bool,
    shortcut: bool,
    start: int,
)
    ensures
        straight_from(sorted, len, cards, low, shortcut, start) is Some ==> within(
            straight_from(sorted, len, cards, low, shortcut, start)->0,
            cards.len() as int,
        ),
    decreases sorted.len() - start,
{
    if !(start < 0 || start >= sorted.len() || start + len > sorted.len()) {
        lemma_window_within(cards, sorted, start, len, low, cards.len() as int);
        lemma_straight_from_within(sorted, len, cards, low, shortcut, start + 1);
    }
}

proof fn lemma_straight_within(cards: Seq<Card>, flags: JokerEffectFlags)
    ensures
        straight_cards(cards, flags) is Some ==> within(straight_cards(cards, flags)->0, cards.len() as int),
{
    let sorted = present_orders(cards, 13);
    let low = seq![1usize] + without_high_ace(sorted);
    lemma_straight_from_within(sorted, 5, cards, false, flags.shortcut, 0);
    lemma_straight_from_within(low, 5, cards, true, flags.shortcut, 0);
    lemma_straight_from_within(sorted, 4, cards, false, flags.shortcut, 0);
    lemma_straight_from_within(low, 4, cards, true, flags.shortcut, 0);
}

proof fn lemma_flush_within(cards: Seq<Card>, flags: JokerEffectFlags)
    ensures
        flush_cards(cards, flags) is Some ==> within(flush_cards(cards, flags)->0, cards.len() as int),
{
    let n = cards.len() as int;
    if let Some(f) = flush_filter(cards, 5, flags.smeared_joker) {
        lemma_picked_within(cards, f, 5, n);
    }
    if let Some(f) = flush_filter(cards, 4, flags.smeared_joker) {
        lemma_picked_within(cards, f, 4, n);
    }
}

proof fn lemma_common_within(a: Seq<usize>, b: Seq<usize>, n: int)
    requires
        within(a, n),
    ensures
        within(common(a, b), n),
    decreases a.len(),
{
    if a.len() > 0 {
        assert(within(a.drop_last(), n)) by {
            assert forall|j: int| 0 <= j < a.drop_last().len() implies #[trigger] a.drop_last()[j] < n by {
                assert(a.drop_last()[j] == a[j]);
            }
        }
        lemma_common_within(a.drop_last(), b, n);
    }
}

pub proof fn lemma_best_hand_in_range(cards: Seq<Card>, flags: JokerEffectFlags)
    ensures
        within(best_hand(cards, flags).1, cards.len() as int),
{
    let n = cards.len() as int;
    lemma_flush_within(cards, flags);
    lemma_straight_within(cards, flags);
    if let Some(f) = flush_cards(cards, flags) {
        if let Some(s) = straight_cards(cards, flags) {
            lemma_common_within(f, s, n);
        }
    }
    if let Some(k) = first_rank_at_least(cards, 4, 0) {
        lemma_picked_within(cards, CardFilter::OfRank(Rank::from_index(k)), 4, n);
    }
    if let Some(k) = first_rank_at_least(cards, 3, 0) {
        lemma_picked_within(cards, CardFilter::OfRank(Rank::from_index(k)), 3, n);
    }
    if let Some(k) = first_rank_at_least(cards, 2, 0) {
        lemma_picked_within(cards, CardFilter::OfRank(Rank::from_index(k)), 2, n);
    }
    let p = ranks_with_exactly(cards, 2, 13);
    if p.len() == 2 {
        let a = picked(cards, CardFilter::OfRank(Rank::from_index(p[0] as int)), 2, n);
        let b = picked(cards, CardFilter::OfRank(Rank::from_index(p[1] as int)), 2, n);
        lemma_picked_within(cards, CardFilter::OfRank(Rank::from_index(p[0] as int)), 2, n);
        lemma_picked_within(cards, CardFilter::OfRank(Rank::from_index(p[1] as int)), 2, n);
        assert forall|j: int| 0 <= j < (a + b).len() implies #[trigger] (a + b)[j] < n by {
            if j < a.len() {
                assert((a + b)[j] == a[j]);
            } else {
                assert((a + b)[j] == b[j - a.len()]);
            }
        }
    }
    if n > 0 {
        lemma_highest_in_range(cards, n);
    }
}


/// A played set that is both a full house and a flush is a flush house:
/// never a flush or a full house alone.
pub proof fn lemma_flush_house_priority(cards: Seq<Card>, flags: JokerEffectFlags)
    requires
        is_full_house(cards),
        flush_cards(cards, flags) is Some,
    ensures
        best_hand(cards, flags).0 == PokerHand::FlushHouse,
        best_hand(cards, flags).1 == all_positions(cards.len()),
{
}

} // verus!
