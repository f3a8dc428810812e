//! The error taxonomy of the codec.

use vstd::prelude::*;

verus! {

/// Why a decode or encode failed.
#[derive(Clone, Debug, PartialEq)]
pub enum TaskError {
    /// The wire text is not valid JSON.
    Syntax,
    /// The top-level payload is not an object (or array) where one was
    /// expected.
    NotAnObject,
    /// A required field (`status`, `uuid`, `entry` or `description`) is
    /// absent.
    MissingField(String),
    /// A known field's value does not have its expected shape.
    InvalidField(String),
    /// A value under an unrecognized key is not a supported scalar.
    UnsupportedUda(String),
    /// A number's text names no finite JSON number, so encoding failed.
    Serialize,
}

/// The mathematical shape of a [`TaskError`].
#[verifier::ext_equal]
pub ghost enum TaskErrorV {
    /// The wire text is not valid JSON.
    Syntax,
    /// The top-level payload is not an object (or array) where one was
    /// expected.
    NotAnObject,
    /// A required field is absent.
    MissingField(Seq<char>),
    /// A known field's value does not have its expected shape.
    InvalidField(Seq<char>),
    /// A value under an unrecognized key is not a supported scalar.
    UnsupportedUda(Seq<char>),
    /// A number's text names no finite JSON number, so encoding failed.
    Serialize,
}

impl View for TaskError {
    type V = TaskErrorV;

    open spec fn view(&self) -> TaskErrorV {
        match self {
            TaskError::Syntax => TaskErrorV::Syntax,
            TaskError::NotAnObject => TaskErrorV::NotAnObject,
            TaskError::MissingField(n) => TaskErrorV::MissingField(n@),
            TaskError::InvalidField(n) => TaskErrorV::InvalidField(n@),
            TaskError::UnsupportedUda(n) => TaskErrorV::UnsupportedUda(n@),
            TaskError::Serialize => TaskErrorV::Serialize,
        }
    }
}

} // verus!
