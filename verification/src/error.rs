//! Error types of the library and their messages.
use vstd::prelude::*;

verus! {

/// Input that the library refuses before touching any stored data.
#[derive(Debug, Clone, Copy, PartialEq, Eq, Structural)]
pub enum ValidationError {
    EmptyName,
    EmptyFront,
    EmptyBack,
    InvalidGrade,
}

/// Why an operation on stored records failed.
#[derive(Debug, Clone, PartialEq, Eq)]
pub enum RepoError {
    NotFound,
    ForeignKeyViolation,
    Validation(ValidationError),
    Migration(String),
    /// Any other database failure, by the database's own description of it.
    Db(String),
}

/// SQLite's extended result code for a violated foreign-key constraint.
pub const SQLITE_CONSTRAINT_FOREIGNKEY: i32 = 787;

pub open spec fn validation_message(e: ValidationError) -> Seq<char> {
    match e {
        ValidationError::EmptyName => "name cannot be empty"@,
        ValidationError::EmptyFront => "front cannot be empty"@,
        ValidationError::EmptyBack => "back cannot be empty"@,
        ValidationError::InvalidGrade => "grade must be between 1 and 4"@,
    }
}

pub open spec fn repo_message(e: RepoError) -> Seq<char> {
    match e {
        RepoError::NotFound => "record not found"@,
        RepoError::ForeignKeyViolation => "foreign key violation"@,
        RepoError::Validation(v) => "validation: "@ + validation_message(v),
        RepoError::Migration(m) => "migration: "@ + m@,
        RepoError::Db(m) => "database: "@ + m@,
    }
}

impl ValidationError {
    /// The human-readable description of the error.
    pub fn message(&self) -> (r: String)
        ensures
            r@ == validation_message(*self),
    {
        match self {
            ValidationError::EmptyName => String::from_str("name cannot be empty"),
            ValidationError::EmptyFront => String::from_str("front cannot be empty"),
            ValidationError::EmptyBack => String::from_str("back cannot be empty"),
            ValidationError::InvalidGrade => String::from_str("grade must be between 1 and 4"),
        }
    }
}

impl RepoError {
    /// Classifies a failed database statement: a foreign-key violation is
    /// reported as such, anything else as a database error that keeps the
    /// database's own description.
    pub fn from_sqlite(extended_code: Option<i32>, description: String) -> (r: RepoError)
        ensures
            extended_code == Some(SQLITE_CONSTRAINT_FOREIGNKEY) ==> r
                == RepoError::ForeignKeyViolation,
            extended_code != Some(SQLITE_CONSTRAINT_FOREIGNKEY) ==> r == RepoError::Db(
                description,
            ),
    {
        match extended_code {
            Some(code) => {
                if code == SQLITE_CONSTRAINT_FOREIGNKEY {
                    RepoError::ForeignKeyViolation
                } else {
                    RepoError::Db(description)
                }
            },
            None => RepoError::Db(description),
        }
    }

    /// The human-readable description of the error.
    pub fn message(&self) -> (r: String)
        ensures
            r@ == repo_message(*self),
    {
        match self {
            RepoError::NotFound => String::from_str("record not found"),
            RepoError::ForeignKeyViolation => String::from_str("foreign key violation"),
            RepoError::Validation(v) => {
                let inner = v.message();
                String::from_str("validation: ").concat(inner.as_str())
            },
            RepoError::Migration(m) => String::from_str("migration: ").concat(m.as_str()),
            RepoError::Db(m) => String::from_str("database: ").concat(m.as_str()),
        }
    }
}

/// Reports a statement that changed no row as a missing record.
pub fn require_affected(rows: usize) -> (r: Result<(), RepoError>)
    ensures
        r is Err <==> rows == 0,
        r is Err ==> r == Err::<(), RepoError>(RepoError::NotFound),
{
    if rows == 0 {
        Err(RepoError::NotFound)
    } else {
        Ok(())
    }
}

} // verus!
