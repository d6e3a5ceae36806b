//! Studies: the records that creating and renaming one produce.
use vstd::prelude::*;
use crate::adapters::{json_document_text, json_value_text, new_uuid_v7, now_rfc3339};
use crate::error::{RepoError, ValidationError};
use crate::text::trim;
use crate::types::Study;
use crate::validate::validate_name;

verus! {

/// A study to create inside a category.
pub struct CreateStudy {
    pub category_id: String,
    pub method: String,
    pub name: String,
    pub payload: serde_json::Value,
}

/// The new name of a study.
pub struct UpdateStudy {
    pub name: String,
}

/// A new study and the stored text of its payload.
pub struct NewStudyRow {
    pub study: Study,
    pub payload_json: String,
}

/// The columns a rename of a study writes.
pub struct StudyChange {
    pub name: String,
    pub updated_at: String,
}

/// Prepares a new study: the name is trimmed and must not be blank; the
/// record gets a fresh identifier and one time for both its timestamps; the
/// payload is stored as its JSON text (an empty object where it could not be
/// written, which does not happen).
pub fn new_record(input: CreateStudy) -> (r: Result<NewStudyRow, RepoError>)
    ensures
        r is Err <==> trim(input.name@).len() == 0,
        r is Err ==> r == Err::<NewStudyRow, RepoError>(RepoError::Validation(ValidationError::EmptyName)),
        r matches Ok(row) ==> {
            &&& row.study.name@ == trim(input.name@)
            &&& row.study.category_id == input.category_id
            &&& row.study.method == input.method
            &&& row.study.payload == input.payload
            &&& row.study.id@.len() == 36
            &&& row.study.created_at == row.study.updated_at
            &&& row.study.created_at@.len() > 0
            &&& row.payload_json@ == json_document_text(input.payload)
            &&& row.payload_json@.len() > 0
        },
{
    let name = match validate_name(input.name.as_str()) {
        Ok(n) => n,
        Err(e) => {
            return Err(RepoError::Validation(e));
        },
    };
    let id = new_uuid_v7();
    let now = now_rfc3339();
    let payload_json = match json_value_text(&input.payload) {
        Some(t) => t,
        None => {
            proof {
                reveal_strlit("{}");
            }
            String::from_str("{}")
        },
    };
    Ok(NewStudyRow {
        study: Study {
            id,
            category_id: input.category_id,
            method: input.method,
            name,
            payload: input.payload,
            created_at: now.clone(),
            updated_at: now,
        },
        payload_json,
    })
}

/// Prepares the rename of a study: the name is trimmed and must not be blank.
pub fn prepare_update(input: UpdateStudy) -> (r: Result<StudyChange, RepoError>)
    ensures
        r is Err <==> trim(input.name@).len() == 0,
        r is Err ==> r == Err::<StudyChange, RepoError>(RepoError::Validation(ValidationError::EmptyName)),
        r matches Ok(c) ==> c.name@ == trim(input.name@) && c.updated_at@.len() > 0,
{
    let name = match validate_name(input.name.as_str()) {
        Ok(n) => n,
        Err(e) => {
            return Err(RepoError::Validation(e));
        },
    };
    let updated_at = now_rfc3339();
    Ok(StudyChange { name, updated_at })
}

} // verus!
