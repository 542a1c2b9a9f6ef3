use vstd::prelude::*;

verus! {

/// Why a document was turned down.
#[derive(Debug, PartialEq, Eq)]
pub enum NotionError {
    /// The field `object` is missing, is no string, or is not the word that was
    /// expected. Carries the word that was found, where there was one.
    UnexpectedObjectKind(Option<String>),
    /// A database document has no object under `properties`.
    MalformedSchema,
    /// A list document has no array under `results`.
    MalformedList,
    /// A response has no string under `object`. Carries the response as text.
    UnexpectedResponse(String),
    /// A response says of itself that it is an error. Carries the response as
    /// text.
    ErrorResponse(String),
}

/// A `NotionError` as a mathematical value.
pub enum ErrorModel {
    UnexpectedObjectKind(Option<Seq<char>>),
    MalformedSchema,
    MalformedList,
    UnexpectedResponse(Seq<char>),
    ErrorResponse(Seq<char>),
}

impl View for NotionError {
    type V = ErrorModel;

    open spec fn view(&self) -> ErrorModel {
        match self {
            NotionError::UnexpectedObjectKind(Some(found)) => ErrorModel::UnexpectedObjectKind(
                Some(found@),
            ),
            NotionError::UnexpectedObjectKind(None) => ErrorModel::UnexpectedObjectKind(None),
            NotionError::MalformedSchema => ErrorModel::MalformedSchema,
            NotionError::MalformedList => ErrorModel::MalformedList,
            NotionError::UnexpectedResponse(text) => ErrorModel::UnexpectedResponse(text@),
            NotionError::ErrorResponse(text) => ErrorModel::ErrorResponse(text@),
        }
    }
}

} // verus!
