//! Cards, and the adjacency rule that decides which card may follow which.

use vstd::prelude::*;

verus! {

/// The four suits of a standard deck.
#[derive(Debug, Clone, Copy, PartialEq, Eq, Structural)]
pub enum Suit {
    Hearts,
    Diamonds,
    Clubs,
    Spades,
}

/// The thirteen ranks, from `Ace` (lowest, 1) to `King` (highest, 13).
#[derive(Debug, Clone, Copy, PartialEq, Eq, Structural)]
pub enum Rank {
    Ace,
    Two,
    Three,
    Four,
    Five,
    Six,
    Seven,
    Eight,
    Nine,
    Ten,
    Jack,
    Queen,
    King,
}

/// A playing card.
#[derive(Debug, Clone, Copy, PartialEq, Eq, Structural)]
pub struct Card {
    pub suit: Suit,
    pub rank: Rank,
}

/// The suit that stands at position `i` of a freshly ordered deck's suits.
pub open spec fn suit_at(i: int) -> Suit {
    if i == 0 {
        Suit::Hearts
    } else if i == 1 {
        Suit::Diamonds
    } else if i == 2 {
        Suit::Clubs
    } else {
        Suit::Spades
    }
}

/// The rank whose number is `v`, for `v` from 1 to 13.
pub open spec fn rank_at(v: int) -> Rank {
    if v == 1 {
        Rank::Ace
    } else if v == 2 {
        Rank::Two
    } else if v == 3 {
        Rank::Three
    } else if v == 4 {
        Rank::Four
    } else if v == 5 {
        Rank::Five
    } else if v == 6 {
        Rank::Six
    } else if v == 7 {
        Rank::Seven
    } else if v == 8 {
        Rank::Eight
    } else if v == 9 {
        Rank::Nine
    } else if v == 10 {
        Rank::Ten
    } else if v == 11 {
        Rank::Jack
    } else if v == 12 {
        Rank::Queen
    } else {
        Rank::King
    }
}

/// Two rank numbers are neighbours when they differ by one, or when they
/// are the two ends of the scale, 1 and 13.
pub open spec fn adjacent(a: int, b: int) -> bool {
    a - b == 1 || b - a == 1 || (a == 1 && b == 13) || (a == 13 && b == 1)
}

impl Rank {
    /// The rank's number on the scale 1..=13.
    pub open spec fn number(self) -> int {
        match self {
            Rank::Ace => 1,
            Rank::Two => 2,
            Rank::Three => 3,
            Rank::Four => 4,
            Rank::Five => 5,
            Rank::Six => 6,
            Rank::Seven => 7,
            Rank::Eight => 8,
            Rank::Nine => 9,
            Rank::Ten => 10,
            Rank::Jack => 11,
            Rank::Queen => 12,
            Rank::King => 13,
        }
    }

    /// Whether a card of this rank may be laid on one of rank `other`.
    pub open spec fn plays_on(self, other: Rank) -> bool {
        adjacent(self.number(), other.number())
    }

    /// The rank's number on the scale 1..=13.
    pub fn value(&self) -> (v: u8)
        ensures
            v as int == self.number(),
            1 <= v <= 13,
    {
        match self {
            Rank::Ace => 1,
            Rank::Two => 2,
            Rank::Three => 3,
            Rank::Four => 4,
            Rank::Five => 5,
            Rank::Six => 6,
            Rank::Seven => 7,
            Rank::Eight => 8,
            Rank::Nine => 9,
            Rank::Ten => 10,
            Rank::Jack => 11,
            Rank::Queen => 12,
            Rank::King => 13,
        }
    }

    /// Whether a card of this rank may be laid on one of rank `other`: the
    /// two are one apart, or they are Ace and King.
    pub fn can_play_on(&self, other: &Rank) -> (ok: bool)
        ensures
            ok == self.plays_on(*other),
    {
        let self_val: u8 = self.value();
        let other_val: u8 = other.value();
        if self_val == 1 && other_val == 13 {
            return true;
        }
        if self_val == 13 && other_val == 1 {
            return true;
        }
        self_val == other_val + 1 || other_val == self_val + 1
    }
}

/// The deck in its fresh order: the suits in turn, each from Ace to King.
pub open spec fn full_deck() -> Seq<Card> {
    Seq::new(52, |i: int| Card { suit: suit_at(i / 13), rank: rank_at(i % 13 + 1) })
}

fn suit_of(i: usize) -> (s: Suit)
    requires
        i < 4,
    ensures
        s == suit_at(i as int),
{
    if i == 0 {
        Suit::Hearts
    } else if i == 1 {
        Suit::Diamonds
    } else if i == 2 {
        Suit::Clubs
    } else {
        Suit::Spades
    }
}

fn rank_of(v: usize) -> (r: Rank)
    requires
        1 <= v <= 13,
    ensures
        r == rank_at(v as int),
        r.number() == v,
{
    if v == 1 {
        Rank::Ace
    } else if v == 2 {
        Rank::Two
    } else if v == 3 {
        Rank::Three
    } else if v == 4 {
        Rank::Four
    } else if v == 5 {
        Rank::Five
    } else if v == 6 {
        Rank::Six
    } else if v == 7 {
        Rank::Seven
    } else if v == 8 {
        Rank::Eight
    } else if v == 9 {
        Rank::Nine
    } else if v == 10 {
        Rank::Ten
    } else if v == 11 {
        Rank::Jack
    } else if v == 12 {
        Rank::Queen
    } else {
        Rank::King
    }
}

/// A standard deck of 52 cards in its fresh order.
pub fn create_deck() -> (deck: Vec<Card>)
    ensures
        deck@ == full_deck(),
{
    let mut deck: Vec<Card> = Vec::with_capacity(52);
    let mut s: usize = 0;
    while s < 4
        invariant
            s <= 4,
            deck@.len() == s * 13,
            forall|k: int| 0 <= k < deck@.len() ==> deck@[k] == full_deck()[k],
        decreases 4 - s,
    {
        let suit = suit_of(s);
        let mut r: usize = 1;
        while r <= 13
            invariant
                s < 4,
                1 <= r <= 14,
                suit == suit_at(s as int),
                deck@.len() == s * 13 + (r - 1),
                forall|k: int| 0 <= k < deck@.len() ==> deck@[k] == full_deck()[k],
            decreases 14 - r,
        {
            let rank = rank_of(r);
            proof {
                let k = deck@.len() as int;
                assert(k / 13 == s as int && k % 13 == r - 1) by (nonlinear_arith)
                    requires
                        k == s * 13 + (r - 1),
                        1 <= r <= 13,
                        0 <= s,
                ;
            }
            deck.push(Card { suit, rank });
            r += 1;
        }
        s += 1;
    }
    assert(deck@ =~= full_deck());
    deck
}

/// No rank may be laid on itself.
pub proof fn lemma_no_rank_plays_on_itself(r: Rank)
    ensures
        !r.plays_on(r),
{
}

/// The adjacency rule is symmetric: if `a` may be laid on `b`, then `b` may
/// be laid on `a`.
pub proof fn lemma_plays_on_symmetric(a: Rank, b: Rank)
    ensures
        a.plays_on(b) == b.plays_on(a),
{
}

} // verus!
