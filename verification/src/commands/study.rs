//! Input of the study commands.
use vstd::prelude::*;
use crate::repo::study::CreateStudy;

verus! {

/// A new study as the user interface sends it.
pub struct CreateStudyPayload {
    pub category_id: String,
    pub method: String,
    pub name: String,
    pub payload: serde_json::Value,
}

/// The study to create, as sent.
pub fn to_create_study(p: CreateStudyPayload) -> (r: CreateStudy)
    ensures
        r.category_id == p.category_id,
        r.method == p.method,
        r.name == p.name,
        r.payload == p.payload,
{
    CreateStudy { category_id: p.category_id, method: p.method, name: p.name, payload: p.payload }
}

} // verus!
