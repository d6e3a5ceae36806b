//! Reviews: the record that recording one produces.
use vstd::prelude::*;
use crate::adapters::new_uuid_v7;
use crate::types::ReviewLog;

verus! {

/// A review to record.
pub struct CreateReviewLog {
    pub card_id: String,
    pub grade: i32,
    pub reviewed_at: String,
    /// Bit pattern of the stability before the review.
    pub prev_stability_bits: u64,
    /// Bit pattern of the difficulty before the review.
    pub prev_difficulty_bits: u64,
    pub prev_due: String,
}

/// Prepares the record of a review: the given fields under a fresh identifier.
pub fn new_record(input: CreateReviewLog) -> (r: ReviewLog)
    ensures
        r.id@.len() == 36,
        r.card_id == input.card_id,
        r.grade == input.grade,
        r.reviewed_at == input.reviewed_at,
        r.prev_stability_bits == input.prev_stability_bits,
        r.prev_difficulty_bits == input.prev_difficulty_bits,
        r.prev_due == input.prev_due,
{
    ReviewLog {
        id: new_uuid_v7(),
        card_id: input.card_id,
        grade: input.grade,
        reviewed_at: input.reviewed_at,
        prev_stability_bits: input.prev_stability_bits,
        prev_difficulty_bits: input.prev_difficulty_bits,
        prev_due: input.prev_due,
    }
}

} // verus!
