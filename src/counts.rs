//! The card-group summary: how many played cards hold each rank and each
//! suit, and how many are wild.
use vstd::prelude::*;
use crate::card::{Card, rank_to_order};

verus! {

/// How many cards of `cards` have the rank of index `k`.
pub open spec fn rank_cnt(cards: Seq<Card>, k: int) -> nat
    decreases cards.len(),
{
    if cards.len() == 0 {
        0
    } else {
        rank_cnt(cards.drop_last(), k) + if cards.last().rank.index() == k { 1nat } else { 0nat }
    }
}

/// How many cards of `cards` are not wild and have the suit of index `k`.
pub open spec fn suit_cnt(cards: Seq<Card>, k: int) -> nat
    decreases cards.len(),
{
    if cards.len() == 0 {
        0
    } else {
        suit_cnt(cards.drop_last(), k) + if !cards.last().is_wild() && cards.last().suit.index() == k {
            1nat
        } else {
            0nat
        }
    }
}

/// How many cards of `cards` are wild.
pub open spec fn wild_cnt(cards: Seq<Card>) -> nat
    decreases cards.len(),
{
    if cards.len() == 0 {
        0
    } else {
        wild_cnt(cards.drop_last()) + if cards.last().is_wild() { 1nat } else { 0nat }
    }
}

/// How many of the ranks of index below `n` occur in `cards`.
pub open spec fn ranks_present(cards: Seq<Card>, n: int) -> nat
    decreases n,
{
    if n <= 0 {
        0
    } else {
        ranks_present(cards, n - 1) + if rank_cnt(cards, n - 1) > 0 { 1nat } else { 0nat }
    }
}

/// How many of the suits of index below `n` occur among the cards that are not wild.
pub open spec fn suits_present(cards: Seq<Card>, n: int) -> nat
    decreases n,
{
    if n <= 0 {
        0
    } else {
        suits_present(cards, n - 1) + if suit_cnt(cards, n - 1) > 0 { 1nat } else { 0nat }
    }
}

pub proof fn lemma_counts_bounded(cards: Seq<Card>, k: int)
    ensures
        rank_cnt(cards, k) <= cards.len(),
        suit_cnt(cards, k) <= cards.len(),
        wild_cnt(cards) <= cards.len(),
    decreases cards.len(),
{
    if cards.len() > 0 {
        lemma_counts_bounded(cards.drop_last(), k);
    }
}

/// Counts of the played cards: `rank_count[k]` for the rank of high order
/// `k + 2`, `suit_count[k]` for the suit of index `k` (wild cards left out),
/// and the number of wild cards.
pub struct CardCounts {
    pub rank_count: Vec<usize>,
    pub suit_count: Vec<usize>,
    pub wild_count: usize,
}

impl CardCounts {
    pub open spec fn view(&self) -> (Seq<usize>, Seq<usize>, usize) {
        (self.rank_count@, self.suit_count@, self.wild_count)
    }

    /// The counts are exactly those of `cards`.
    pub open spec fn summarizes(&self, cards: Seq<Card>) -> bool {
        &&& self.rank_count@.len() == 13
        &&& self.suit_count@.len() == 4
        &&& forall|k: int| 0 <= k < 13 ==> self.rank_count@[k] == rank_cnt(cards, k)
        &&& forall|k: int| 0 <= k < 4 ==> self.suit_count@[k] == suit_cnt(cards, k)
        &&& self.wild_count == wild_cnt(cards)
    }
}

fn zeros(n: usize) -> (r: Vec<usize>)
    ensures
        r@.len() == n,
        forall|k: int| 0 <= k < n ==> r@[k] == 0,
{
    let mut r: Vec<usize> = Vec::new();
    let mut i: usize = 0;
    while i < n
        invariant
            i <= n,
            r@.len() == i,
            forall|k: int| 0 <= k < i ==> r@[k] == 0,
        decreases n - i,
    {
        r.push(0);
        i = i + 1;
    }
    r
}

/// Counts the ranks, suits and wild cards of `cards` in one pass.
pub fn summarize(cards: &Vec<Card>) -> (r: CardCounts)
    ensures
        r.summarizes(cards@),
{
    let mut rank_count = zeros(13);
    let mut suit_count = zeros(4);
    let mut wild_count: usize = 0;
    let mut i: usize = 0;
    while i < cards.len()
        invariant
            i <= cards@.len(),
            rank_count@.len() == 13,
            suit_count@.len() == 4,
            forall|k: int| 0 <= k < 13 ==> rank_count@[k] == rank_cnt(cards@.take(i as int), k),
            forall|k: int| 0 <= k < 4 ==> suit_count@[k] == suit_cnt(cards@.take(i as int), k),
            wild_count == wild_cnt(cards@.take(i as int)),
        decreases cards@.len() - i,
    {
        let card = cards[i];
        let ghost before = cards@.take(i as int);
        let ghost after = cards@.take(i + 1);
        assert(after.drop_last() =~= before);
        assert(after.last() == card);
        let ghost rk = card.rank.index();
        proof {
            crate::card::lemma_rank_index(card.rank);
            lemma_counts_bounded(before, rk);
            lemma_counts_bounded(before, card.suit.index());
        }
        let k = rank_to_order(&card.rank, false) - 2;
        rank_count.set(k, rank_count[k] + 1);
        if card.wild() {
            wild_count = wild_count + 1;
        } else {
            let s = card.suit.suit_index();
            suit_count.set(s, suit_count[s] + 1);
        }
        i = i + 1;
    }
    assert(cards@.take(cards@.len() as int) =~= cards@);
    CardCounts { rank_count, suit_count, wild_count }
}

/// Summarizing is a function of the cards alone: two summaries of the same
/// cards are equal.
pub proof fn lemma_summary_deterministic(cards: Seq<Card>, a: CardCounts, b: CardCounts)
    requires
        a.summarizes(cards),
        b.summarizes(cards),
    ensures
        a@ == b@,
{
    assert forall|k: int| 0 <= k < 13 implies a.rank_count@[k] == b.rank_count@[k] by {
        assert(a.rank_count@[k] == rank_cnt(cards, k));
    }
    assert forall|k: int| 0 <= k < 4 implies a.suit_count@[k] == b.suit_count@[k] by {
        assert(a.suit_count@[k] == suit_cnt(cards, k));
    }
    assert(a.rank_count@ =~= b.rank_count@);
    assert(a.suit_count@ =~= b.suit_count@);
}

} // verus!
