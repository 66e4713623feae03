//! Errors of the stores.
use vstd::prelude::*;

verus! {

#[derive(Debug, PartialEq, Eq)]
pub enum DbError {
    InvalidEmail,
    InvalidStatus,
    UserExists,
    Unauthorized,
    TokenInvalid,
    InvalidConversation,
    InvalidData(String),
    NotFound,
    Io(String),
    Sql(String),
    Json(String),
}

impl DbError {
    /// The text an error is shown with.
    pub fn message(&self) -> (s: String)
        ensures
            s@ == match *self {
                DbError::InvalidEmail => "invalid email"@,
                DbError::InvalidStatus => "invalid status"@,
                DbError::UserExists => "user already exists"@,
                DbError::Unauthorized => "unauthorized"@,
                DbError::TokenInvalid => "token invalid or expired"@,
                DbError::InvalidConversation => "invalid conversation"@,
                DbError::InvalidData(d) => "invalid data: "@ + d@,
                DbError::NotFound => "not found"@,
                DbError::Io(d) => d@,
                DbError::Sql(d) => d@,
                DbError::Json(d) => d@,
            },
    {
        match self {
            DbError::InvalidEmail => String::from_str("invalid email"),
            DbError::InvalidStatus => String::from_str("invalid status"),
            DbError::UserExists => String::from_str("user already exists"),
            DbError::Unauthorized => String::from_str("unauthorized"),
            DbError::TokenInvalid => String::from_str("token invalid or expired"),
            DbError::InvalidConversation => String::from_str("invalid conversation"),
            DbError::InvalidData(d) => String::from_str("invalid data: ").concat(d.as_str()),
            DbError::NotFound => String::from_str("not found"),
            DbError::Io(d) => d.clone(),
            DbError::Sql(d) => d.clone(),
            DbError::Json(d) => d.clone(),
        }
    }
}

} // verus!
