//! The ways in which an operation on the record table can fail.

use vstd::prelude::*;

verus! {

/// Why an operation did not succeed.
#[derive(Debug)]
pub enum Error {
    /// The signature does not prove control of the claimed owner key.
    Ownership,
    /// The record table has not been created, or has been dropped.
    StoreUninitialized,
    /// The storage layer failed; code and message are passed through.
    Storage { code: Option<isize>, message: Option<String> },
}

/// The mathematical value of an [`Error`].
pub enum ErrorView {
    Ownership,
    StoreUninitialized,
    Storage { code: Option<isize>, message: Option<Seq<char>> },
}

impl View for Error {
    type V = ErrorView;

    open spec fn view(&self) -> ErrorView {
        match self {
            Error::Ownership => ErrorView::Ownership,
            Error::StoreUninitialized => ErrorView::StoreUninitialized,
            Error::Storage { code, message } => ErrorView::Storage {
                code: *code,
                message: match message {
                    Some(m) => Some(m@),
                    None => None,
                },
            },
        }
    }
}

/// What a caller is told when a write is rejected for its signature.
pub open spec fn not_owner_text() -> Seq<char> {
    "You are not the owner!"@
}

/// What a caller is told when the record table does not exist.
pub open spec fn uninitialized_text() -> Seq<char> {
    "The record store is not initialized"@
}

/// What a caller is told when the storage layer failed without a message.
pub open spec fn unexplained_text() -> Seq<char> {
    "The storage layer failed"@
}

/// The message with which the storage layer reports a missing record table.
pub open spec fn missing_table_text() -> Seq<char> {
    "no such table: dht"@
}

/// The message of the error that stands for a value that is not there.
pub open spec fn none_text() -> Seq<char> {
    "Value doesn't exist"@
}

impl ErrorView {
    /// The text that the result envelope carries for this error.
    pub open spec fn text(self) -> Seq<char> {
        match self {
            ErrorView::Ownership => not_owner_text(),
            ErrorView::StoreUninitialized => uninitialized_text(),
            ErrorView::Storage { code, message: Some(m) } => m,
            ErrorView::Storage { code, message: None } => unexplained_text(),
        }
    }

    /// How a failure reported by the storage layer is classified: a missing
    /// record table means that the store is not initialized, anything else is
    /// passed through.
    pub open spec fn from_storage(code: Option<isize>, message: Option<Seq<char>>) -> ErrorView {
        if message == Some(missing_table_text()) {
            ErrorView::StoreUninitialized
        } else {
            ErrorView::Storage { code, message }
        }
    }

    /// The error that stands for a value that is not there.
    pub open spec fn none() -> ErrorView {
        ErrorView::Storage { code: None, message: Some(none_text()) }
    }
}

impl Error {
    /// Classifies a failure reported by the storage layer.
    pub fn from_storage(code: Option<isize>, message: Option<String>) -> (e: Error)
        ensures
            e@ == ErrorView::from_storage(
                code,
                match message {
                    Some(m) => Some(m@),
                    None => None,
                },
            ),
    {
        let missing_table = "no such table: dht".to_owned();
        let missing = match &message {
            Some(m) => *m == missing_table,
            None => false,
        };
        if missing {
            Error::StoreUninitialized
        } else {
            Error::Storage { code, message }
        }
    }

    /// The text that the result envelope carries for this error.
    pub fn text(&self) -> (s: String)
        ensures
            s@ == self@.text(),
    {
        match self {
            Error::Ownership => "You are not the owner!".to_owned(),
            Error::StoreUninitialized => "The record store is not initialized".to_owned(),
            Error::Storage { code: _, message: Some(m) } => m.clone(),
            Error::Storage { code: _, message: None } => "The storage layer failed".to_owned(),
        }
    }
}

/// The error that stands for a value that is not there: no code, and the
/// message "Value doesn't exist".
pub fn get_none_error() -> (e: Error)
    ensures
        e@ == ErrorView::none(),
{
    Error::Storage { code: None, message: Some("Value doesn't exist".to_owned()) }
}

} // verus!
