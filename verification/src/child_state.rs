//! States of a nexus child: lifecycle, synchronization and destroy phases,
//! and the projection reported to clients.

use vstd::prelude::*;

verus! {

/// Reason why a child is faulted.
#[derive(Debug, Clone, Copy, PartialEq, Eq, Structural)]
pub enum FaultReason {
    /// No particular reason for the child to be in this state.
    Unknown,
    /// Cannot open the underlying block device.
    CantOpen,
    /// A write failed because the underlying volume ran out of space.
    NoSpace,
    /// The underlying device timed out.
    TimedOut,
    /// The child has been faulted due to I/O errors.
    IoError,
    /// The child failed to rebuild successfully.
    RebuildFailed,
    /// Admin command failure.
    AdminCommandFailed,
    /// The child has been temporarily offlined by a client API call.
    Offline,
    /// The child has been permanently offlined by a client API call.
    OfflinePermanent,
}

impl FaultReason {
    /// A recoverable reason permits the child to be opened again;
    /// a permanent one does not.
    pub open spec fn spec_is_recoverable(self) -> bool {
        match self {
            FaultReason::NoSpace
            | FaultReason::TimedOut
            | FaultReason::IoError
            | FaultReason::Offline
            | FaultReason::AdminCommandFailed
            | FaultReason::RebuildFailed => true,
            FaultReason::Unknown | FaultReason::CantOpen | FaultReason::OfflinePermanent => false,
        }
    }

    /// Determines if the fault reason is recoverable.
    pub fn is_recoverable(&self) -> (r: bool)
        ensures
            r == self.spec_is_recoverable(),
    {
        matches!(
            self,
            FaultReason::NoSpace
                | FaultReason::TimedOut
                | FaultReason::IoError
                | FaultReason::Offline
                | FaultReason::AdminCommandFailed
                | FaultReason::RebuildFailed
        )
    }
}

/// State of a nexus child.
#[derive(Debug, Clone, Copy, PartialEq, Eq, Structural)]
pub enum ChildState {
    /// Child has not been opened, but we are in the process of opening it.
    Init,
    /// Cannot add this block device to the parent as it is incompatible
    /// property-wise.
    ConfigInvalid,
    /// The child is open for I/O.
    Open,
    /// The child has been closed by the nexus.
    Closed,
    /// The child is faulted.
    Faulted(FaultReason),
}

impl ChildState {
    /// The state is open-like or open-failed; such a child cannot be opened
    /// again.
    pub open spec fn spec_is_open_or_init(self) -> bool {
        match self {
            ChildState::Open | ChildState::Init | ChildState::ConfigInvalid => true,
            _ => false,
        }
    }

    /// Determines if the state is open-like or open-failed.
    /// A child in such a state cannot be opened again.
    pub fn is_open_or_init(&self) -> (r: bool)
        ensures
            r == self.spec_is_open_or_init(),
    {
        matches!(self, ChildState::Open | ChildState::Init | ChildState::ConfigInvalid)
    }

    /// A child in a recoverable state can be onlined (re-opened).
    pub open spec fn spec_is_recoverable(self) -> bool {
        match self {
            ChildState::Faulted(reason) => reason.spec_is_recoverable(),
            ChildState::Closed => true,
            _ => false,
        }
    }

    /// Determines if a child is in a state that can be onlined (re-opened).
    pub fn is_recoverable(&self) -> (r: bool)
        ensures
            r == self.spec_is_recoverable(),
    {
        match self {
            ChildState::Faulted(reason) => reason.is_recoverable(),
            ChildState::Closed => true,
            _ => false,
        }
    }

    /// The state is a fault due to running out of space.
    pub open spec fn spec_is_enospc(self) -> bool {
        self == ChildState::Faulted(FaultReason::NoSpace)
    }

    /// Check if the state is a fault due to ENOSPC.
    pub fn is_enospc(&self) -> (r: bool)
        ensures
            r == self.spec_is_enospc(),
    {
        matches!(self, ChildState::Faulted(FaultReason::NoSpace))
    }
}

/// State of the child from the client API perspective.
#[derive(Debug, Clone, Copy, PartialEq, Eq, Structural)]
pub enum ChildStateClient {
    Init,
    ConfigInvalid,
    Open,
    Closed,
    Faulted(FaultReason),
    /// Faulted, but the device is still being closed.
    Faulting(FaultReason),
    /// Open, but awaiting a rebuild.
    OutOfSync,
}

/// Synchronization state of a nexus child.
#[derive(Debug, Clone, Copy, PartialEq, Eq, Structural)]
pub enum ChildSyncState {
    /// Child is fully synced: it serves both reads and writes.
    Synced,
    /// Child is out of sync: awaiting a rebuild or being rebuilt.
    /// Such a child can be part of the write I/O path only.
    OutOfSync,
}

/// State of a child device destroy process.
#[derive(Debug, Clone, Copy, PartialEq, Eq, Structural)]
pub enum ChildDestroyState {
    /// The child is not being destroyed.
    NotDestroying,
    /// The child device is being destroyed.
    Destroying,
}

/// How the client API sees a child, derived purely from reads of the
/// internal fields: an `Open` child that is out of sync is reported as
/// `OutOfSync`, and a `Faulted` child whose device is still being closed
/// (it is being destroyed, or still owns a descriptor) is reported as the
/// transitional `Faulting`.
pub open spec fn spec_state_client(
    state: ChildState,
    sync_state: ChildSyncState,
    destroying: bool,
    has_descriptor: bool,
) -> ChildStateClient {
    if state == ChildState::Open && sync_state == ChildSyncState::OutOfSync {
        ChildStateClient::OutOfSync
    } else {
        match state {
            ChildState::Init => ChildStateClient::Init,
            ChildState::ConfigInvalid => ChildStateClient::ConfigInvalid,
            ChildState::Open => ChildStateClient::Open,
            ChildState::Closed => ChildStateClient::Closed,
            ChildState::Faulted(r) => if destroying || has_descriptor {
                ChildStateClient::Faulting(r)
            } else {
                ChildStateClient::Faulted(r)
            },
        }
    }
}

} // verus!
