//! The filesystem requests that the state machines issue, and their outcomes.
use vstd::prelude::*;
use crate::paths::{PartView, SysPath};

verus! {

/// How a filesystem request ended.
#[derive(Clone, Copy, Debug, PartialEq, Eq, Structural)]
pub enum FsOutcome {
    /// It succeeded (for a metadata lookup: the path exists).
    Done,
    /// It failed because the target already exists.
    AlreadyExists,
    /// It failed because a path it needed does not exist.
    NotFound,
    /// It failed for any other reason.
    Failed,
}

/// The next thing the caller must do on behalf of a state machine.
#[derive(Debug)]
pub enum FsAction {
    /// Read the metadata of the path and report `Done` if it exists.
    Stat(SysPath),
    /// Create this one directory.
    CreateDir(SysPath),
    /// Rename the source onto the destination.
    Rename,
    /// The operation is over and succeeded.
    Succeed,
    /// The operation is over; the error of the last request is its result.
    Fail,
}

/// The mathematical value of an action.
pub enum ActionView {
    Stat(Seq<PartView>),
    CreateDir(Seq<PartView>),
    Rename,
    Succeed,
    Fail,
}

impl View for FsAction {
    type V = ActionView;

    open spec fn view(&self) -> ActionView {
        match self {
            FsAction::Stat(p) => ActionView::Stat(p@),
            FsAction::CreateDir(p) => ActionView::CreateDir(p@),
            FsAction::Rename => ActionView::Rename,
            FsAction::Succeed => ActionView::Succeed,
            FsAction::Fail => ActionView::Fail,
        }
    }
}

} // verus!
