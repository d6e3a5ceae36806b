//! Input of the category commands.
use vstd::prelude::*;
use crate::repo::category::CreateCategory;

verus! {

/// A new category as the user interface sends it.
pub struct CreateCategoryPayload {
    pub name: String,
    pub color: Option<String>,
}

/// The category to create, as sent.
pub fn to_create_category(payload: CreateCategoryPayload) -> (r: CreateCategory)
    ensures
        r.name == payload.name,
        r.color == payload.color,
{
    CreateCategory { name: payload.name, color: payload.color }
}

} // verus!
