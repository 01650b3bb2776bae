//! Errors of the library.
use vstd::prelude::*;
use crate::metamodel::Range;

verus! {

/// Errors produced by the library.
#[derive(Debug)]
pub enum ConcertoError {
    /// The model contains an illegal construct.
    IllegalModel { message: String, file_name: Option<String>, location: Option<Range> },
    /// A referenced type could not be found.
    TypeNotFound { name: String },
    /// A value failed validation against the model.
    Validation { message: String, component: String },
}

/// What an error says, with its texts as character sequences. The library never
/// attaches a source range to the errors it makes, so the view keeps only whether
/// one is there.
pub enum ErrorView {
    IllegalModel { message: Seq<char>, file_name: Option<Seq<char>>, has_location: bool },
    TypeNotFound { name: Seq<char> },
    Validation { message: Seq<char>, component: Seq<char> },
}

/// The view of an optional string.
pub open spec fn opt_text(o: Option<String>) -> Option<Seq<char>> {
    match o {
        Some(s) => Some(s@),
        None => None,
    }
}

impl View for ConcertoError {
    type V = ErrorView;

    open spec fn view(&self) -> ErrorView {
        match self {
            ConcertoError::IllegalModel { message, file_name, location } => ErrorView::IllegalModel {
                message: message@,
                file_name: opt_text(*file_name),
                has_location: location is Some,
            },
            ConcertoError::TypeNotFound { name } => ErrorView::TypeNotFound { name: name@ },
            ConcertoError::Validation { message, component } => ErrorView::Validation {
                message: message@,
                component: component@,
            },
        }
    }
}

/// An illegal-model error without a source range.
pub open spec fn illegal(message: Seq<char>, file_name: Option<Seq<char>>) -> ErrorView {
    ErrorView::IllegalModel { message, file_name, has_location: false }
}

/// A copy of an optional string.
pub fn clone_opt_string(o: &Option<String>) -> (r: Option<String>)
    ensures
        opt_text(r) == opt_text(*o),
{
    match o {
        Some(s) => Some(s.clone()),
        None => None,
    }
}

/// An illegal-model error without a source range.
pub fn illegal_model(message: String, file_name: Option<String>) -> (r: ConcertoError)
    ensures
        r@ == illegal(message@, opt_text(file_name)),
{
    ConcertoError::IllegalModel { message, file_name, location: None }
}

/// The same error, with its file name replaced when it is an illegal-model error.
pub open spec fn with_file_name(e: ErrorView, file_name: Option<Seq<char>>) -> ErrorView {
    match e {
        ErrorView::IllegalModel { message, .. } => illegal(message, file_name),
        other => other,
    }
}

} // verus!
