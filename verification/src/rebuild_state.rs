//! Rebuild job states, operations and the pending-state reconciler.
//!
//! Client requests land in a *pending* slot; the backend promotes them to
//! the current state at a safe point of its loop (`reconcile`).  The two
//! internal operations — complete and fail — bypass any pending client
//! operation; a client cannot request them.

use vstd::prelude::*;

verus! {

/// State of a rebuild job.
#[derive(Debug, Clone, Copy, PartialEq, Eq, Structural)]
pub enum RebuildState {
    /// Job created, not yet started.
    Init,
    /// Copy tasks are being dispatched.
    Running,
    /// Dispatch is suspended; no I/O is in flight.
    Paused,
    /// Terminal: stopped by the client.
    Stopped,
    /// Terminal: the whole range was rebuilt.
    Completed,
    /// Terminal: an error was recorded.
    Failed,
}

impl RebuildState {
    /// Terminal states: the job is over.
    pub open spec fn spec_done(self) -> bool {
        match self {
            RebuildState::Stopped | RebuildState::Completed | RebuildState::Failed => true,
            _ => false,
        }
    }

    /// Whether the job is over.
    pub fn done(&self) -> (r: bool)
        ensures
            r == self.spec_done(),
    {
        matches!(self, RebuildState::Stopped | RebuildState::Completed | RebuildState::Failed)
    }

    /// Whether the job is running.
    pub fn running(&self) -> (r: bool)
        ensures
            r == (*self == RebuildState::Running),
    {
        matches!(self, RebuildState::Running)
    }
}

/// An operation requested on a rebuild job.
#[derive(Debug, Clone, Copy, PartialEq, Eq, Structural)]
pub enum RebuildOperation {
    Start,
    Pause,
    Resume,
    Stop,
    /// Internal: the whole range was rebuilt.
    Complete,
    /// Internal: record a failure.
    Fail,
}

impl RebuildOperation {
    /// The state an operation requests.
    pub open spec fn spec_target(self) -> RebuildState {
        match self {
            RebuildOperation::Start => RebuildState::Running,
            RebuildOperation::Pause => RebuildState::Paused,
            RebuildOperation::Resume => RebuildState::Running,
            RebuildOperation::Stop => RebuildState::Stopped,
            RebuildOperation::Complete => RebuildState::Completed,
            RebuildOperation::Fail => RebuildState::Failed,
        }
    }

    /// The state an operation requests.
    pub fn target(&self) -> (r: RebuildState)
        ensures
            r == self.spec_target(),
    {
        match self {
            RebuildOperation::Start => RebuildState::Running,
            RebuildOperation::Pause => RebuildState::Paused,
            RebuildOperation::Resume => RebuildState::Running,
            RebuildOperation::Stop => RebuildState::Stopped,
            RebuildOperation::Complete => RebuildState::Completed,
            RebuildOperation::Fail => RebuildState::Failed,
        }
    }

    /// Operations reserved to the backend itself.
    pub open spec fn spec_is_internal(self) -> bool {
        self == RebuildOperation::Complete || self == RebuildOperation::Fail
    }

    /// Whether the operation is reserved to the backend itself.
    pub fn is_internal(&self) -> (r: bool)
        ensures
            r == self.spec_is_internal(),
    {
        matches!(self, RebuildOperation::Complete | RebuildOperation::Fail)
    }
}

/// Errors of the rebuild subsystem.
#[derive(Debug, Clone, Copy, PartialEq, Eq, Structural)]
pub enum RebuildError {
    /// The named block device was not found.
    BdevNotFound,
    /// A child URI did not resolve to a device name.
    BdevInvalidUri,
    /// A task's DMA copy buffer could not be allocated.
    NoCopyBuffer,
    /// The range or the block sizes of source and destination do not
    /// agree.
    InvalidParameters,
    /// The frontend dropped its side of the request channel.
    FrontendGone,
    /// The task completion channel failed with tasks outstanding.
    RebuildTasksChannel { active: usize },
}

/// Current and pending state of a rebuild job, with the first recorded
/// error.
#[derive(Debug, Clone, Copy, PartialEq, Eq, Structural)]
pub struct RebuildStates {
    /// The state the job is acting under.
    pub current: RebuildState,
    /// A requested state, promoted by `reconcile` at a safe point.
    pub pending: Option<RebuildState>,
    /// The first error recorded, kept for later stats queries.
    pub error: Option<RebuildError>,
}

impl RebuildStates {
    /// A fresh job: `Init`, nothing pending, no error.
    pub fn new() -> (r: Self)
        ensures
            r == (RebuildStates { current: RebuildState::Init, pending: None, error: None }),
    {
        RebuildStates { current: RebuildState::Init, pending: None, error: None }
    }

    /// Request an operation.  A terminal job accepts none; a client may
    /// not request the internal operations; otherwise the operation's
    /// target becomes the pending state, superseding any earlier request.
    pub fn exec_op(&mut self, op: RebuildOperation, internal: bool) -> (r: bool)
        ensures
            old(self).current.spec_done() ==> *final(self) == *old(self) && r == false,
            !old(self).current.spec_done() && !internal && op.spec_is_internal() ==> *final(self)
                == *old(self) && r == false,
            !old(self).current.spec_done() && (internal || !op.spec_is_internal()) ==> *final(self)
                == (Self { pending: Some(op.spec_target()), ..*old(self) }) && r == true,
    {
        if self.current.done() {
            return false;
        }
        if !internal && op.is_internal() {
            return false;
        }
        self.pending = Some(op.target());
        true
    }

    /// Promote the pending state, if any, to the current state and clear
    /// it; returns the current state.
    pub fn reconcile(&mut self) -> (r: RebuildState)
        ensures
            r == final(self).current,
            final(self).error == old(self).error,
            final(self).pending is None,
            old(self).pending matches Some(p) ==> final(self).current == p,
            old(self).pending is None ==> final(self).current == old(self).current,
    {
        match self.pending.take() {
            Some(p) => {
                self.current = p;
            },
            None => {},
        }
        self.current
    }
}

} // verus!
