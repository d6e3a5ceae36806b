//! Checks on user input.
use vstd::prelude::*;
use crate::error::{RepoError, ValidationError};
use crate::text::{trim, trim_str, is_blank_str};

verus! {

/// Trims a name and refuses one that trims to nothing.
pub fn validate_name(name: &str) -> (r: Result<String, ValidationError>)
    ensures
        match r {
            Ok(t) => t@ == trim(name@) && t@.len() > 0,
            Err(e) => e == ValidationError::EmptyName && trim(name@).len() == 0,
        },
{
    let t = trim_str(name);
    if t.as_str().is_empty() {
        Err(ValidationError::EmptyName)
    } else {
        Ok(t)
    }
}

/// Trims the two sides of a card; the front is checked before the back.
pub fn validate_card_text(front: &str, back: &str) -> (r: Result<(String, String), RepoError>)
    ensures
        match r {
            Ok((f, b)) => f@ == trim(front@) && b@ == trim(back@) && f@.len() > 0 && b@.len()
                > 0,
            Err(e) => card_text_error(front@, back@) == Some(e),
        },
        r is Err <==> card_text_error(front@, back@) is Some,
{
    let f = trim_str(front);
    if f.as_str().is_empty() {
        return Err(RepoError::Validation(ValidationError::EmptyFront));
    }
    let b = trim_str(back);
    if b.as_str().is_empty() {
        return Err(RepoError::Validation(ValidationError::EmptyBack));
    }
    Ok((f, b))
}

/// The error a card with these two sides is refused with, if any: a blank
/// front first, then a blank back.
pub open spec fn card_text_error(front: Seq<char>, back: Seq<char>) -> Option<RepoError> {
    if trim(front).len() == 0 {
        Some(RepoError::Validation(ValidationError::EmptyFront))
    } else if trim(back).len() == 0 {
        Some(RepoError::Validation(ValidationError::EmptyBack))
    } else {
        None
    }
}

/// Refuses a settings key that is blank; the key itself is kept as given.
pub fn validate_setting_key(key: &str) -> (r: Result<(), RepoError>)
    ensures
        r is Err <==> trim(key@).len() == 0,
        r is Err ==> r == Err::<(), RepoError>(RepoError::Validation(ValidationError::EmptyName)),
{
    if is_blank_str(key) {
        Err(RepoError::Validation(ValidationError::EmptyName))
    } else {
        Ok(())
    }
}

} // verus!
