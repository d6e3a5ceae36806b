//! The inputs of a review: the grade as a rating, the card's state, and the
//! instants and interval the scheduler starts from.
use vstd::prelude::*;
use crate::adapters::{parse_rfc3339, rfc3339_instant};
use crate::error::{RepoError, ValidationError};
use crate::session::export::{whole_days, whole_days_between};
use crate::types::Card;

verus! {

/// How well a card was recalled.
#[derive(Debug, Clone, Copy, PartialEq, Eq, Structural)]
pub enum Grade {
    Again,
    Hard,
    Good,
    Easy,
}

/// Where a card stands in its learning.
#[derive(Debug, Clone, Copy, PartialEq, Eq, Structural)]
pub enum CardState {
    New,
    Learning,
    Review,
    Relearning,
}

/// What the scheduler is given for one review.
#[derive(Debug, Clone, Copy)]
pub struct ReviewInputs {
    pub rating: Grade,
    pub state: CardState,
    /// When the card was due, as timestamp and nanoseconds.
    pub due: (i64, u32),
    /// When the card was last reviewed, as timestamp and nanoseconds.
    pub last_review: (i64, u32),
    /// Whole days from the last review to the due time; zero for a new card.
    pub scheduled_days: i64,
}

/// The rating of a grade from 1 to 4.
pub open spec fn grade_of(g: u8) -> Option<Grade> {
    if g == 1 {
        Some(Grade::Again)
    } else if g == 2 {
        Some(Grade::Hard)
    } else if g == 3 {
        Some(Grade::Good)
    } else if g == 4 {
        Some(Grade::Easy)
    } else {
        None
    }
}

/// The state a stored state name stands for; any unknown name is a new card.
pub open spec fn state_of(name: Seq<char>) -> CardState {
    if name == "learning"@ {
        CardState::Learning
    } else if name == "review"@ {
        CardState::Review
    } else if name == "relearning"@ {
        CardState::Relearning
    } else {
        CardState::New
    }
}

/// The stored name of a state.
pub open spec fn state_name_of(s: CardState) -> Seq<char> {
    match s {
        CardState::New => "new"@,
        CardState::Learning => "learning"@,
        CardState::Review => "review"@,
        CardState::Relearning => "relearning"@,
    }
}

/// Reads a grade; only 1 to 4 are grades.
pub fn grade_from(g: u8) -> (r: Result<Grade, RepoError>)
    ensures
        match grade_of(g) {
            Some(x) => r == Ok::<Grade, RepoError>(x),
            None => r == Err::<Grade, RepoError>(RepoError::Validation(ValidationError::InvalidGrade)),
        },
{
    match g {
        1 => Ok(Grade::Again),
        2 => Ok(Grade::Hard),
        3 => Ok(Grade::Good),
        4 => Ok(Grade::Easy),
        _ => Err(RepoError::Validation(ValidationError::InvalidGrade)),
    }
}

/// Reads a stored state name.
pub fn parse_state(name: &str) -> (r: CardState)
    ensures
        r == state_of(name@),
{
    proof {
        reveal_strlit("learning");
        reveal_strlit("review");
        reveal_strlit("relearning");
    }
    let s = name.to_owned();
    if s == String::from_str("learning") {
        CardState::Learning
    } else if s == String::from_str("review") {
        CardState::Review
    } else if s == String::from_str("relearning") {
        CardState::Relearning
    } else {
        CardState::New
    }
}

/// The stored name of a state.
pub fn state_name(s: CardState) -> (r: String)
    ensures
        r@ == state_name_of(s),
{
    match s {
        CardState::New => String::from_str("new"),
        CardState::Learning => String::from_str("learning"),
        CardState::Review => String::from_str("review"),
        CardState::Relearning => String::from_str("relearning"),
    }
}

/// The instant a date-time text stands for, or `fallback` where it is not one.
pub open spec fn instant_or(text: Seq<char>, fallback: (i64, u32)) -> (i64, u32) {
    match rfc3339_instant(text) {
        Some(p) => p,
        None => fallback,
    }
}

/// The inputs of reviewing `card` with grade `g` at the instant `now`: the
/// grade must be 1 to 4; an unreadable or missing last review or due time
/// counts as `now`; a new card has no scheduled interval, any other the
/// whole days from its last review to its due time, none below zero.
pub open spec fn review_inputs_of(card: Card, g: u8, now: (i64, u32)) -> Option<ReviewInputs> {
    match grade_of(g) {
        None => None,
        Some(rating) => {
            let last = match card.last_review {
                Some(t) => instant_or(t@, now),
                None => now,
            };
            let due = instant_or(card.due@, now);
            let state = state_of(card.state@);
            let d = whole_days(due, last);
            Some(
                ReviewInputs {
                    rating,
                    state,
                    due,
                    last_review: last,
                    scheduled_days: if state == CardState::New {
                        0
                    } else if d < 0 {
                        0
                    } else {
                        d as i64
                    },
                },
            )
        },
    }
}

fn instant_text_or(text: &str, fallback: (i64, u32)) -> (r: (i64, u32))
    requires
        fallback.1 < 2_000_000_000,
    ensures
        r == instant_or(text@, fallback),
        r.1 < 2_000_000_000,
{
    match parse_rfc3339(text) {
        Some(p) => p,
        None => fallback,
    }
}

/// Prepares the review of a card with grade `g` at the instant `now`; a
/// grade other than 1 to 4 is refused.
pub fn review_inputs(card: &Card, g: u8, now: (i64, u32)) -> (r: Result<ReviewInputs, RepoError>)
    requires
        now.1 < 2_000_000_000,
    ensures
        match review_inputs_of(*card, g, now) {
            Some(x) => r == Ok::<ReviewInputs, RepoError>(x),
            None => r == Err::<ReviewInputs, RepoError>(RepoError::Validation(ValidationError::InvalidGrade)),
        },
{
    let rating = grade_from(g)?;
    let last = match &card.last_review {
        Some(t) => instant_text_or(t.as_str(), now),
        None => now,
    };
    let due = instant_text_or(card.due.as_str(), now);
    let state = parse_state(card.state.as_str());
    let scheduled_days: i64 = if state == CardState::New {
        0
    } else {
        let d = whole_days_between(due, last);
        if d < 0 {
            0
        } else {
            d as i64
        }
    };
    Ok(ReviewInputs { rating, state, due, last_review: last, scheduled_days })
}

/// What a review hands to the scheduler, told in terms of the card: grades 1
/// to 4 are Again, Hard, Good and Easy and no other grade is taken; the state
/// is the one the card's stored name stands for ("learning", "review",
/// "relearning", and any other name a new card); the due and last-review
/// instants are the card's own where they read as date-times, else `now`;
/// a new card has no interval, any other the whole days from its last review
/// to its due time, none below zero.
pub proof fn law_review_inputs_follow_card(card: Card, g: u8, now: (i64, u32))
    ensures
        review_inputs_of(card, g, now) is Some <==> 1 <= g <= 4,
        review_inputs_of(card, g, now) matches Some(x) ==> {
            &&& (g == 1 ==> x.rating == Grade::Again)
            &&& (g == 2 ==> x.rating == Grade::Hard)
            &&& (g == 3 ==> x.rating == Grade::Good)
            &&& (g == 4 ==> x.rating == Grade::Easy)
            &&& (card.state@ == "learning"@ ==> x.state == CardState::Learning)
            &&& (card.state@ == "review"@ ==> x.state == CardState::Review)
            &&& (card.state@ == "relearning"@ ==> x.state == CardState::Relearning)
            &&& (card.state@ != "learning"@ && card.state@ != "review"@ && card.state@
                != "relearning"@ ==> x.state == CardState::New)
            &&& x.due == (match rfc3339_instant(card.due@) {
                Some(p) => p,
                None => now,
            })
            &&& x.last_review == (match card.last_review {
                Some(t) => match rfc3339_instant(t@) {
                    Some(p) => p,
                    None => now,
                },
                None => now,
            })
            &&& x.scheduled_days == (if x.state == CardState::New || whole_days(x.due, x.last_review) < 0 {
                0
            } else {
                whole_days(x.due, x.last_review) as i64
            })
        },
{
    reveal_strlit("learning");
    reveal_strlit("review");
    reveal_strlit("relearning");
    assert("review"@.len() != "learning"@.len());
    assert("relearning"@.len() != "learning"@.len());
    assert("relearning"@.len() != "review"@.len());
}

} // verus!
