//! What the record operations decide before and after they touch storage.
pub mod card;
pub mod category;
pub mod review_log;
pub mod study;
