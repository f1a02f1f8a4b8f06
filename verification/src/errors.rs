//! Error taxonomy: a malformed recipient key is fatal for a run, a failed
//! remote call or a value too large to encode is recorded per action.

use vstd::prelude::*;

verus! {

/// What a single remote store call reports on failure: the response status
/// and a human-readable message.
#[derive(Debug)]
pub struct StoreError {
    pub status: u16,
    pub message: String,
}

/// Spec-level image of a `StoreError`.
pub ghost struct StoreErrorView {
    pub status: u16,
    pub message: Seq<char>,
}

impl View for StoreError {
    type V = StoreErrorView;

    open spec fn view(&self) -> StoreErrorView {
        StoreErrorView { status: self.status, message: self.message@ }
    }
}

impl DeepView for StoreError {
    type V = StoreErrorView;

    open spec fn deep_view(&self) -> StoreErrorView {
        self.view()
    }
}

/// The run-level error taxonomy.
///
/// `InvalidKey` is fatal: no ciphertext can be produced without a valid
/// recipient key, so it surfaces once, before any action is attempted.
/// `RemoteError` and `EncodeError` are recorded per action and do not stop
/// the remaining actions.
#[derive(Debug)]
pub enum AppError {
    /// The recipient key is structurally invalid (not base64, or not
    /// exactly 32 bytes of key material).
    InvalidKey,
    /// A single remote store call failed (non-2xx status or transport
    /// failure).
    RemoteError { status: u16, message: String },
    /// A value could not be prepared for transmission (its encoded form
    /// would not fit in memory).
    EncodeError,
}

/// Spec-level image of an `AppError`.
pub ghost enum AppErrorView {
    InvalidKey,
    RemoteError { status: u16, message: Seq<char> },
    EncodeError,
}

impl View for AppError {
    type V = AppErrorView;

    open spec fn view(&self) -> AppErrorView {
        match self {
            AppError::InvalidKey => AppErrorView::InvalidKey,
            AppError::RemoteError { status, message } => AppErrorView::RemoteError {
                status: *status,
                message: message@,
            },
            AppError::EncodeError => AppErrorView::EncodeError,
        }
    }
}

impl DeepView for AppError {
    type V = AppErrorView;

    open spec fn deep_view(&self) -> AppErrorView {
        self.view()
    }
}

} // verus!
