//! The failures that a store reports and the errors that the library returns.

use vstd::prelude::*;

verus! {

/// Why a single store operation did not succeed.
#[derive(Debug)]
pub enum StoreError {
    /// The key or value that the operation names does not exist.
    NotFound,
    /// Any other failure, with the store's own description of it.
    Failed(String),
}

/// Why the library gave up on an operation.
#[derive(Debug)]
pub enum RegistryError {
    /// The document carries value data but no value name.
    ValueDataWithoutName,
    /// A parent was needed of a key path that holds no separator; the field is
    /// that path.
    InvalidKeyPath(String),
    /// The key or value that was to be read does not exist.
    NotFound,
    /// The store holds a value of a kind that a document cannot express.
    UnsupportedValueKind,
    /// The store reported a failure other than "not found"; the field is the
    /// store's description.
    Store(String),
}

/// The mathematical content of a [`RegistryError`].
pub enum ErrorView {
    ValueDataWithoutName,
    InvalidKeyPath(Seq<char>),
    NotFound,
    UnsupportedValueKind,
    Store(Seq<char>),
}

impl View for RegistryError {
    type V = ErrorView;

    open spec fn view(&self) -> ErrorView {
        match self {
            RegistryError::ValueDataWithoutName => ErrorView::ValueDataWithoutName,
            RegistryError::InvalidKeyPath(p) => ErrorView::InvalidKeyPath(p@),
            RegistryError::NotFound => ErrorView::NotFound,
            RegistryError::UnsupportedValueKind => ErrorView::UnsupportedValueKind,
            RegistryError::Store(m) => ErrorView::Store(m@),
        }
    }
}

impl StoreError {
    /// The description that a failure other than "not found" carries.
    pub open spec fn message(self) -> Seq<char> {
        match self {
            StoreError::NotFound => Seq::empty(),
            StoreError::Failed(m) => m@,
        }
    }
}

/// Turns a store failure that no operation can absorb into the library's error:
/// "not found" stays "not found", any other failure keeps its description.
pub fn fatal_store_error(err: StoreError) -> (r: RegistryError)
    ensures
        err is NotFound ==> r@ == ErrorView::NotFound,
        err is Failed ==> r@ == ErrorView::Store(err.message()),
{
    match err {
        StoreError::NotFound => RegistryError::NotFound,
        StoreError::Failed(message) => RegistryError::Store(message),
    }
}

} // verus!
