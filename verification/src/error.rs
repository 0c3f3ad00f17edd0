//! The ways in which reading a container fails.

use vstd::prelude::*;

verus! {

/// A failure while decoding a stream or resolving a property.
#[derive(Debug, Clone, PartialEq, Eq)]
pub enum AafError {
    /// A stream does not have the layout that its kind of stream must have.
    FormatError,
    /// No stream or storage exists at the path that is carried.
    StorageError(String),
    /// The object has no property with the identifier that was asked for.
    PropertyNotFound,
    /// A weak reference leads nowhere.
    ReferenceResolutionError,
    /// The bytes are fewer than the fixed width of the record to decode.
    DecodeError,
}

/// The mathematical value of an [`AafError`].
pub enum ErrorView {
    FormatError,
    StorageError(Seq<char>),
    PropertyNotFound,
    ReferenceResolutionError,
    DecodeError,
}

impl View for AafError {
    type V = ErrorView;

    open spec fn view(&self) -> ErrorView {
        match self {
            AafError::FormatError => ErrorView::FormatError,
            AafError::StorageError(path) => ErrorView::StorageError(path@),
            AafError::PropertyNotFound => ErrorView::PropertyNotFound,
            AafError::ReferenceResolutionError => ErrorView::ReferenceResolutionError,
            AafError::DecodeError => ErrorView::DecodeError,
        }
    }
}

/// The view of a result: the view of what it holds on either side.
pub open spec fn view_result<T: View, E: View>(r: Result<T, E>) -> Result<T::V, E::V> {
    match r {
        Ok(t) => Ok(t@),
        Err(e) => Err(e@),
    }
}

/// The views of the elements of a sequence, in order.
pub open spec fn views<T: View>(s: Seq<T>) -> Seq<T::V> {
    s.map_values(|t: T| t@)
}

impl AafError {
    /// A short description of the failure.
    pub fn message(&self) -> (s: String)
        ensures
            s@ == match self@ {
                ErrorView::FormatError => "malformed stream"@,
                ErrorView::StorageError(path) => "no stream or storage at "@ + path,
                ErrorView::PropertyNotFound => "property not found"@,
                ErrorView::ReferenceResolutionError => "weak reference cannot be resolved"@,
                ErrorView::DecodeError => "record is too short"@,
            },
    {
        match self {
            AafError::FormatError => String::from_str("malformed stream"),
            AafError::StorageError(path) => String::from_str("no stream or storage at ").concat(
                path.as_str(),
            ),
            AafError::PropertyNotFound => String::from_str("property not found"),
            AafError::ReferenceResolutionError => String::from_str(
                "weak reference cannot be resolved",
            ),
            AafError::DecodeError => String::from_str("record is too short"),
        }
    }
}

} // verus!
