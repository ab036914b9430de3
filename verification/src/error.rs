//! What can go wrong while a connection is served.

use vstd::prelude::*;

verus! {

/// The errors of this library.
#[derive(Debug, PartialEq, Eq)]
pub enum PgWireError {
    /// The client never said which user it wants to be.
    UserNameRequired,
    /// A SCRAM message was refused; the text says why.
    InvalidScramMessage(String),
}

/// The result of an operation of this library.
pub type PgWireResult<T> = Result<T, PgWireError>;

impl PgWireError {
    /// Whether this is an [`PgWireError::InvalidScramMessage`] with the text `text`.
    pub open spec fn is_invalid_scram_message(self, text: Seq<char>) -> bool {
        self matches PgWireError::InvalidScramMessage(t) && t@ == text
    }
}

/// An error is told by its text: it is the one about a refused message with just that text.
pub proof fn law_refusal_is_told_by_its_text(reason: String, text: Seq<char>)
    ensures
        PgWireError::InvalidScramMessage(reason).is_invalid_scram_message(text) <==> reason@
            == text,
        !PgWireError::UserNameRequired.is_invalid_scram_message(text),
{
}

} // verus!
