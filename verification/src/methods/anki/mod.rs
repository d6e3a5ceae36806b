//! The flash-card method: deck documents, deck import and the inputs of a review.
pub mod fsrs;
pub mod import;
