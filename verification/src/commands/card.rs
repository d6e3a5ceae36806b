//! Input of the card commands.
use vstd::prelude::*;
use crate::repo::card::CreateCard;

verus! {

/// A card as the user interface sends it for a batch insert.
pub struct CardInput {
    pub front: String,
    pub back: String,
    pub tags: Vec<String>,
}

/// The cards of a batch to add, field by field as sent, in their order.
pub fn to_create_cards(cards: Vec<CardInput>) -> (r: Vec<CreateCard>)
    ensures
        r.len() == cards.len(),
        forall|i: int|
            0 <= i < r.len() ==> (#[trigger] r[i]).front == cards[i].front && r[i].back
                == cards[i].back && r[i].tags == cards[i].tags,
{
    let ghost inc = cards@;
    let mut r: Vec<CreateCard> = Vec::new();
    for c in it: cards.into_iter()
        invariant
            it.seq() == inc,
            r.len() == it.index(),
            forall|i: int|
                0 <= i < r.len() ==> (#[trigger] r[i]).front == inc[i].front && r[i].back
                    == inc[i].back && r[i].tags == inc[i].tags,
    {
        r.push(CreateCard { front: c.front, back: c.back, tags: c.tags });
    }
    r
}

} // verus!
