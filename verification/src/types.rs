//! Records of the study library. Floating-point quantities are carried as
//! their IEEE-754 bit patterns (`f64::to_bits`); the library never computes
//! with them, it only moves them between records.
use vstd::prelude::*;

verus! {

/// A category that groups studies.
#[derive(Debug, Clone)]
pub struct Category {
    pub id: String,
    pub name: String,
    pub color: Option<String>,
    pub created_at: String,
    pub updated_at: String,
}

/// A study (a deck, for the card method) inside a category.
pub struct Study {
    pub id: String,
    pub category_id: String,
    pub method: String,
    pub name: String,
    pub payload: serde_json::Value,
    pub created_at: String,
    pub updated_at: String,
}

/// A flash card with its scheduling state.
#[derive(Debug, Clone)]
pub struct Card {
    pub id: String,
    pub deck_id: String,
    pub front: String,
    pub back: String,
    pub tags: Vec<String>,
    /// Bit pattern of the stability.
    pub stability_bits: u64,
    /// Bit pattern of the difficulty.
    pub difficulty_bits: u64,
    pub due: String,
    pub last_review: Option<String>,
    pub state: String,
    pub reps: i64,
    pub lapses: i64,
}

/// The scheduling state that a review gives a card.
#[derive(Debug, Clone)]
pub struct CardFsrsUpdate {
    /// Bit pattern of the stability.
    pub stability_bits: u64,
    /// Bit pattern of the difficulty.
    pub difficulty_bits: u64,
    pub due: String,
    pub last_review: String,
    pub state: String,
    pub reps: i64,
    pub lapses: i64,
}

/// One recorded review of a card.
#[derive(Debug, Clone)]
pub struct ReviewLog {
    pub id: String,
    pub card_id: String,
    pub grade: i32,
    pub reviewed_at: String,
    /// Bit pattern of the stability before the review.
    pub prev_stability_bits: u64,
    /// Bit pattern of the difficulty before the review.
    pub prev_difficulty_bits: u64,
    pub prev_due: String,
}

} // verus!
