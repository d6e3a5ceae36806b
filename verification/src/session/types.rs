//! Records of a session file. Floating-point quantities are carried as their
//! IEEE-754 bit patterns.
use vstd::prelude::*;

verus! {

/// A category as written to a session file.
#[derive(Debug, Clone)]
pub struct LearnmeCategory {
    pub id: String,
    pub name: String,
    pub color: Option<String>,
}

/// A study as written to a session file.
#[derive(Debug, Clone)]
pub struct LearnmeStudy {
    pub id: String,
    pub category_id: String,
    pub name: String,
    pub method: String,
}

/// A card as written to a session file.
#[derive(Debug, Clone)]
pub struct LearnmeCard {
    pub id: String,
    pub study_id: String,
    pub front: String,
    pub back: String,
    pub tags: Vec<String>,
    pub state: String,
    /// Bit pattern of the stability.
    pub stability_bits: u64,
    /// Bit pattern of the difficulty.
    pub difficulty_bits: u64,
    pub elapsed_days: u32,
    pub scheduled_days: u32,
    pub reps: i64,
    pub lapses: i64,
    pub due: String,
    pub last_reviewed: Option<String>,
}

/// A review as written to a session file.
#[derive(Debug, Clone)]
pub struct LearnmeReviewLog {
    pub id: String,
    pub card_id: String,
    pub grade: i32,
    pub reviewed_at: String,
    /// Bit pattern of the stability.
    pub stability_bits: u64,
    /// Bit pattern of the difficulty.
    pub difficulty_bits: u64,
    pub elapsed_days: u32,
    pub scheduled_days: u32,
    pub review_state: i32,
}

/// Everything a session file carries.
#[derive(Debug, Clone)]
pub struct LearnmeData {
    pub categories: Vec<LearnmeCategory>,
    pub studies: Vec<LearnmeStudy>,
    pub cards: Vec<LearnmeCard>,
    pub review_logs: Vec<LearnmeReviewLog>,
}

/// A session file: its format version, provenance, checksum and data.
#[derive(Debug, Clone)]
pub struct LearnmeFile {
    pub version: u32,
    pub generated_at: String,
    pub app_version: String,
    pub checksum: String,
    pub data: LearnmeData,
}

/// How an import treats what is already stored.
#[derive(Debug, Clone, Copy, PartialEq, Eq, Structural)]
pub enum ImportMode {
    /// Keep stored records and add or update from the file.
    Merge,
    /// Remove all stored study records first.
    Replace,
}

} // verus!
