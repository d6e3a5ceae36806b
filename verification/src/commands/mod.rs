//! Decisions behind the commands the user interface calls.
pub mod card;
pub mod category;
pub mod deck;
pub mod study;
