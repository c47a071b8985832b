//! Error values of the library.
//!
//! Validation and structural errors are expected control flow: callers turn
//! them into a short message for the acting user. Because the verifier does
//! not accept `Display` on the library's types, each error offers a
//! `message` method instead.

use vstd::prelude::*;

verus! {

/// An error whose message is meant to be shown verbatim to the user who
/// caused it, rather than logged as an internal failure.
pub struct UserFriendlyError {
    message: String,
}

impl View for UserFriendlyError {
    type V = Seq<char>;

    closed spec fn view(&self) -> Seq<char> {
        self.message@
    }
}

impl UserFriendlyError {
    /// Wraps a user-facing message.
    pub fn new(message: String) -> (r: Self)
        ensures
            r@ == message@,
    {
        UserFriendlyError { message }
    }

    /// The message to show to the user.
    pub fn message(&self) -> (m: &str)
        ensures
            m@ == self@,
    {
        self.message.as_str()
    }
}

/// A text attribute exceeded its maximum length.
#[derive(Debug, Clone, Copy, PartialEq, Eq, Structural)]
pub struct ValueTooLong;

impl ValueTooLong {
    /// A short description for the acting user.
    pub fn message(&self) -> (m: &'static str)
        ensures
            m@ == "field too long"@,
    {
        "field too long"
    }
}

/// A structural mutation of a form's field sequence was refused.
#[derive(Debug, Clone, Copy, PartialEq, Eq, Structural)]
pub enum AddFieldError {
    /// The form already holds the maximum number of fields.
    TooManyFields,
    /// The requested insertion position lies beyond the field sequence.
    IllegalAddBefore,
}

impl AddFieldError {
    /// A short description for the acting user.
    pub fn message(&self) -> (m: &'static str)
        ensures
            self is TooManyFields ==> m@ == "too many fields"@,
            self is IllegalAddBefore ==> m@ == "illegal add-before target"@,
    {
        match self {
            AddFieldError::TooManyFields => "too many fields",
            AddFieldError::IllegalAddBefore => "illegal add-before target",
        }
    }
}

} // verus!
