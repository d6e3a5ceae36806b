//! Choosing the next card to study, and the daily windows of the due forecast.
use vstd::prelude::*;
use crate::types::Card;

verus! {

/// A question the choice of the next card asks about a deck.
#[derive(Debug, Clone, Copy, PartialEq, Eq, Structural)]
pub enum DeckQuery {
    /// The learning or relearning card that has been due longest, if it is due now.
    OverdueLearning,
    /// The review card that has been due longest, if it is due now.
    OverdueReview,
    /// The new card added first.
    FirstNew,
}

/// Where the choice of the next card stands: a question to ask next, or the answer.
pub enum NextCard {
    Ask(DeckQuery),
    Answer(Option<Card>),
}

/// The choice after asking `asked` and finding `found`.
pub open spec fn next_after(asked: DeckQuery, found: Option<Card>, new_limit: u32) -> NextCard {
    match found {
        Some(c) => NextCard::Answer(Some(c)),
        None => match asked {
            DeckQuery::OverdueLearning => NextCard::Ask(DeckQuery::OverdueReview),
            DeckQuery::OverdueReview => if new_limit > 0 {
                NextCard::Ask(DeckQuery::FirstNew)
            } else {
                NextCard::Answer(None)
            },
            DeckQuery::FirstNew => NextCard::Answer(None),
        },
    }
}

/// The first question: overdue learning cards come first.
pub fn next_card_start() -> (r: DeckQuery)
    ensures
        r == DeckQuery::OverdueLearning,
{
    DeckQuery::OverdueLearning
}

/// Takes what a question found and gives the next question or the card to
/// study: a card found is the answer; otherwise overdue review cards are
/// asked for after overdue learning ones, then, if new cards are allowed at
/// all, the first new card; failing all, there is no card to study.
pub fn next_card_after(asked: DeckQuery, found: Option<Card>, new_limit: u32) -> (r: NextCard)
    ensures
        r == next_after(asked, found, new_limit),
{
    match found {
        Some(c) => NextCard::Answer(Some(c)),
        None => match asked {
            DeckQuery::OverdueLearning => NextCard::Ask(DeckQuery::OverdueReview),
            DeckQuery::OverdueReview => {
                if new_limit > 0 {
                    NextCard::Ask(DeckQuery::FirstNew)
                } else {
                    NextCard::Answer(None)
                }
            },
            DeckQuery::FirstNew => NextCard::Answer(None),
        },
    }
}

/// The card studied next when the three questions would find `learning`,
/// `review` and `first_new`.
pub open spec fn chosen(learning: Option<Card>, review: Option<Card>, first_new: Option<Card>, new_limit: u32) -> Option<Card> {
    if learning is Some {
        learning
    } else if review is Some {
        review
    } else if new_limit > 0 {
        first_new
    } else {
        None
    }
}

/// The choice asks its questions in order of priority: an overdue learning
/// card is studied before an overdue review card, which is studied before a
/// new card, and a new card only when new cards are allowed.
pub proof fn law_next_card_priority(
    learning: Option<Card>,
    review: Option<Card>,
    first_new: Option<Card>,
    new_limit: u32,
)
    ensures
        ({
            let answer_of = |q: DeckQuery| match q {
                DeckQuery::OverdueLearning => learning,
                DeckQuery::OverdueReview => review,
                DeckQuery::FirstNew => first_new,
            };
            let s1 = next_after(DeckQuery::OverdueLearning, learning, new_limit);
            let s2 = match s1 {
                NextCard::Ask(q) => next_after(q, answer_of(q), new_limit),
                NextCard::Answer(a) => NextCard::Answer(a),
            };
            let s3 = match s2 {
                NextCard::Ask(q) => next_after(q, answer_of(q), new_limit),
                NextCard::Answer(a) => NextCard::Answer(a),
            };
            s3 == NextCard::Answer(chosen(learning, review, first_new, new_limit))
        }),
{
}

/// How each question is answered, whatever the new-card limit: a card found
/// is the card to study; when no overdue learning card is found, overdue
/// review cards are asked for next, and an overdue review card found is
/// studied, even when new cards are not allowed at all; only the question
/// for a new card depends on the limit, and a new card is studied only when
/// the limit is above zero.
pub proof fn law_review_cards_whatever_new_limit(
    q: DeckQuery,
    found: Card,
    review: Card,
    first_new: Option<Card>,
    new_limit: u32,
)
    ensures
        next_after(q, Some(found), new_limit) == NextCard::Answer(Some(found)),
        next_after(DeckQuery::OverdueLearning, None, new_limit) == NextCard::Ask(DeckQuery::OverdueReview),
        next_after(DeckQuery::OverdueReview, None, new_limit) == (if new_limit > 0 {
            NextCard::Ask(DeckQuery::FirstNew)
        } else {
            NextCard::Answer(None)
        }),
        next_after(DeckQuery::FirstNew, None, new_limit) == NextCard::Answer(None),
        chosen(None, Some(review), first_new, new_limit) == Some(review),
        chosen(None, None, first_new, 0) is None,
        new_limit > 0 ==> chosen(None, None, first_new, new_limit) == first_new,
{
}

/// The window of day `day` of the due forecast, in whole days from the start
/// of today: the first day counts every card due before its end, overdue ones
/// included; a later day counts the cards due from its start to its end.
pub struct ForecastWindow {
    /// The start of the window; none for the first day.
    pub from_day: Option<u32>,
    /// The end of the window, excluded.
    pub until_day: u64,
}

/// The window of day `day` of the due forecast.
pub fn forecast_window(day: u32) -> (w: ForecastWindow)
    ensures
        w.until_day == day + 1,
        w.from_day == (if day == 0 {
            None
        } else {
            Some(day)
        }),
{
    ForecastWindow {
        from_day: if day == 0 {
            None
        } else {
            Some(day)
        },
        until_day: (day as u64) + 1,
    }
}

} // verus!
