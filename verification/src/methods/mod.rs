//! Study methods. The card method imports and schedules decks of flash cards.
pub mod anki;
