//! Categories: the records that creating and editing one produce.
use vstd::prelude::*;
use crate::adapters::{new_uuid_v7, now_rfc3339};
use crate::error::{RepoError, ValidationError};
use crate::text::trim;
use crate::types::Category;
use crate::validate::validate_name;

verus! {

/// A category to create.
pub struct CreateCategory {
    pub name: String,
    pub color: Option<String>,
}

/// The new name and color of a category.
pub struct UpdateCategory {
    pub name: String,
    pub color: Option<String>,
}

/// The columns an edit of a category writes.
pub struct CategoryChange {
    pub name: String,
    pub color: Option<String>,
    pub updated_at: String,
}

/// Prepares a new category: the name is trimmed and must not be blank; the
/// record gets a fresh identifier and one time for both its timestamps.
pub fn new_record(input: CreateCategory) -> (r: Result<Category, RepoError>)
    ensures
        r is Err <==> trim(input.name@).len() == 0,
        r is Err ==> r == Err::<Category, RepoError>(RepoError::Validation(ValidationError::EmptyName)),
        r matches Ok(c) ==> {
            &&& c.name@ == trim(input.name@)
            &&& c.color == input.color
            &&& c.id@.len() == 36
            &&& c.created_at == c.updated_at
            &&& c.created_at@.len() > 0
        },
{
    let name = match validate_name(input.name.as_str()) {
        Ok(n) => n,
        Err(e) => {
            return Err(RepoError::Validation(e));
        },
    };
    let id = new_uuid_v7();
    let now = now_rfc3339();
    Ok(Category { id, name, color: input.color, created_at: now.clone(), updated_at: now })
}

/// Prepares the edit of a category: the name is trimmed and must not be blank.
pub fn prepare_update(input: UpdateCategory) -> (r: Result<CategoryChange, RepoError>)
    ensures
        r is Err <==> trim(input.name@).len() == 0,
        r is Err ==> r == Err::<CategoryChange, RepoError>(
            RepoError::Validation(ValidationError::EmptyName),
        ),
        r matches Ok(c) ==> c.name@ == trim(input.name@) && c.color == input.color
            && c.updated_at@.len() > 0,
{
    let name = match validate_name(input.name.as_str()) {
        Ok(n) => n,
        Err(e) => {
            return Err(RepoError::Validation(e));
        },
    };
    let updated_at = now_rfc3339();
    Ok(CategoryChange { name, color: input.color, updated_at })
}

} // verus!
