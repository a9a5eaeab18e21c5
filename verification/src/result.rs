//! The envelope in which every operation reports how it ended.

use crate::error::{Error, ErrorView};
use vstd::prelude::*;

verus! {

/// How an operation ended: with success, or with a message that says why not.
#[derive(Debug)]
pub struct FdbResult {
    /// Whether the operation succeeded.
    pub success: bool,
    /// Why it did not; empty after a success.
    pub err_msg: String,
}

/// The mathematical value of an [`FdbResult`].
pub struct FdbResultView {
    pub success: bool,
    pub err_msg: Seq<char>,
}

impl View for FdbResult {
    type V = FdbResultView;

    open spec fn view(&self) -> FdbResultView {
        FdbResultView { success: self.success, err_msg: self.err_msg@ }
    }
}

impl FdbResultView {
    /// The envelope of a success.
    pub open spec fn ok() -> FdbResultView {
        FdbResultView { success: true, err_msg: Seq::empty() }
    }

    /// The envelope of a failure with the message `text`.
    pub open spec fn failed(text: Seq<char>) -> FdbResultView {
        FdbResultView { success: false, err_msg: text }
    }

    /// The envelope of an outcome: a success, or the failure with the text of
    /// its error.
    pub open spec fn from_res(res: Result<(), ErrorView>) -> FdbResultView {
        match res {
            Ok(()) => FdbResultView::ok(),
            Err(e) => FdbResultView::failed(e.text()),
        }
    }
}

/// The mathematical value of an outcome without a value.
pub open spec fn unit_result_view(res: Result<(), Error>) -> Result<(), ErrorView> {
    match res {
        Ok(()) => Ok(()),
        Err(e) => Err(e@),
    }
}

impl FdbResult {
    /// Wraps an outcome.
    pub fn from_res(res: Result<(), Error>) -> (r: FdbResult)
        ensures
            r@ == FdbResultView::from_res(unit_result_view(res)),
    {
        match res {
            Ok(()) => FdbResult { success: true, err_msg: String::new() },
            Err(e) => FdbResult { success: false, err_msg: e.text() },
        }
    }

    /// Wraps a failure that is known by its message alone.
    pub fn from_err_str(e: &str) -> (r: FdbResult)
        ensures
            r@ == FdbResultView::failed(e@),
    {
        FdbResult { success: false, err_msg: e.to_owned() }
    }
}

} // verus!
