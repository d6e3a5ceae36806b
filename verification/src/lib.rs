//! Verified core of the learnMe spaced-repetition library: validation of user
//! input, the session file checks and merge planning, deck import (schema
//! check and de-duplication), review scheduling inputs and deck statistics.
pub mod adapters;
pub mod commands;
pub mod error;
pub mod logging;
pub mod methods;
pub mod repo;
pub mod session;
pub mod stats;
pub mod text;
pub mod types;
pub mod validate;

pub use logging::log_call;
