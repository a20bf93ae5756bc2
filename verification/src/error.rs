//! The errors and notices the library reports.
use vstd::prelude::*;

verus! {

/// What went wrong.
#[derive(Debug, Clone, PartialEq, Eq)]
pub enum MyError {
    /// No template has been configured.
    UnLoadedTemplates,
    /// No product type has been configured.
    UnLoadedTypes,
    /// The named item does not exist.
    NotFound(String),
    /// The named item exists already.
    Haved(String),
    /// Any other failure, with its message.
    Zdyknown(String),
    /// A query found nothing.
    NoResult(String),
    /// A carton number is needed and none was given.
    CartonNoEmpty,
    /// Every query condition is empty.
    AllNone,
    /// No database connection is available.
    DatabaseNotConnected,
    /// A background task failed to finish.
    TaskJoinError(String),
    /// Logging in failed.
    LoginError(String),
    /// The file dialog was closed without a choice.
    DialogClosed,
}

/// What went right.
#[derive(Debug, Clone, PartialEq, Eq)]
pub enum MyTip {
    /// The named item was added.
    AddDone(String),
    /// The named item was updated.
    UpdateDone(String),
    /// The named item was deleted.
    DeleteDone(String),
}

} // verus!
