//! The nexus child: one replica slot of a nexus, backed by a block device.
//!
//! The child is a state machine over three independent fields — lifecycle
//! state, synchronization state and destroy state — plus the owned device,
//! the descriptor (the claim on the device) and an optional write-intent
//! log.  Device creation, destruction and the removal event are raised by
//! the device layer; in this model the removal event of a programmed
//! destroy is delivered synchronously by `close`, and a hot remove is the
//! caller invoking `unplug` directly.

use vstd::prelude::*;
use vstd::string::StringExecFns;

use crate::child_state::{
    spec_state_client,
    ChildDestroyState,
    ChildState,
    ChildStateClient,
    ChildSyncState,
    FaultReason,
};
use crate::clock;
use crate::device::{BlockDeviceInfo, DeviceDescriptor};
use crate::iolog::{spec_num_segments, IOLog, RebuildMap, SEGMENT_SIZE};
use crate::uri;

verus! {

/// Errors of child operations.
#[derive(Debug, Clone, Copy, PartialEq, Eq, Structural)]
pub enum ChildError {
    /// Child is permanently faulted.
    PermanentlyFaulted,
    /// Child is faulted; it cannot be reopened.
    ChildFaulted,
    /// Child is being destroyed.
    ChildBeingDestroyed,
    /// Child is smaller than the parent.
    ChildTooSmall { child_size: u64, parent_size: u64 },
    /// The device layer refused to open the child read-write.
    OpenChild,
    /// Failed to claim the child.
    ClaimChild,
    /// Child is inaccessible.
    ChildInaccessible,
    /// Cannot online a child in its current state.
    CannotOnlineChild,
    /// Failed to create an I/O handle for the child.
    HandleCreate,
    /// Failed to open an I/O handle for the child.
    HandleOpen,
    /// Failed to allocate a DMA buffer for the child.
    HandleDmaMalloc,
    /// Failed to register a reservation key.
    ResvRegisterKey,
    /// Failed to acquire a reservation.
    ResvAcquire,
    /// Failed to release a reservation.
    ResvRelease,
    /// Failed to obtain a reservation report.
    ResvReport,
    /// The reservation report names an invalid reservation type.
    ResvType { resv_type: u8 },
    /// The reservation report names no holder.
    ResvNoHolder { resv_type: u8 },
    /// Another host holds the reservation.
    Holder { hostid: u128, resv_type: u8, resv_key: u64 },
    /// Failed to read the NVMe host identifier.
    NvmeHostId,
    /// Failed to re-create the block device of the child.
    ChildBdevCreate,
}

/// Errors of the device layer surfaced by `close`.
#[derive(Debug, Clone, Copy, PartialEq, Eq, Structural)]
pub enum DeviceError {
    /// The device layer failed to destroy the device.
    DestroyFailed,
}

/// A data-replication event: the reason a parent nexus is asked to
/// reconfigure its channels.
#[derive(Debug, Clone, Copy, PartialEq, Eq, Structural)]
pub enum DrEvent {
    /// A child was unplugged.
    ChildUnplug,
}

/// One replica slot of a nexus.
pub struct NexusChild {
    /// Name of the parent nexus this child belongs to.
    pub parent: String,
    /// Name of the child: the URI used to create it.
    pub name: String,
    /// Current lifecycle state.
    pub state: ChildState,
    /// Whether the child is in sync or needs a rebuild.
    pub sync_state: ChildSyncState,
    /// Current state of the device destroy process.
    pub destroy_state: ChildDestroyState,
    /// Timestamp (milliseconds) of the last fault, if the child has ever
    /// faulted.
    pub faulted_at: Option<i64>,
    /// Underlying block device, as the plain values the logic reads.
    pub device: Option<BlockDeviceInfo>,
    /// The claim on the opened device.
    pub device_descriptor: Option<DeviceDescriptor>,
    /// Write-intent log, while one is running.
    pub io_log: Option<IOLog>,
    /// Token of the single-slot rendezvous channel between `unplug` and
    /// `close`.
    pub unplug_signal: bool,
    /// Reconfiguration requests this child raised to its parent nexus, in
    /// order.  The real engine delivers them by looking the parent up by
    /// name; the model records them.
    pub dr_events: Vec<DrEvent>,
}

impl NexusChild {
    /// Structural soundness: an open child owns a device and a descriptor,
    /// a faulted child carries a fault timestamp, and the owned pieces are
    /// themselves sound.
    pub open spec fn wf(self) -> bool {
        &&& (self.device matches Some(d) ==> d.wf())
        &&& (self.state == ChildState::Open ==> self.device is Some
            && self.device_descriptor is Some)
        &&& (self.state matches ChildState::Faulted(_) ==> self.faulted_at is Some)
        &&& (self.io_log matches Some(l) ==> l.wf())
    }

    /// The child is being destroyed.
    pub open spec fn spec_is_destroying(self) -> bool {
        self.destroy_state == ChildDestroyState::Destroying
    }

    /// `open` refuses a permanently faulted child.
    pub open spec fn spec_faulted_nonrecoverable(self) -> bool {
        self.state matches ChildState::Faulted(r) && !r.spec_is_recoverable()
    }

    /// `open` reaches the device: the child is not being destroyed, not
    /// permanently faulted and not already open.
    pub open spec fn open_proceeds(self) -> bool {
        &&& !self.spec_is_destroying()
        &&& !self.spec_faulted_nonrecoverable()
        &&& self.state != ChildState::Open
    }

    /// The name, parent and sync state are untouched by an operation.
    pub open spec fn same_identity(self, other: Self) -> bool {
        &&& self.name == other.name
        &&& self.parent == other.parent
    }

    /// Create a new nexus child in the `Init` state.
    pub fn new(name: String, parent: String, device: Option<BlockDeviceInfo>) -> (c: Self)
        requires
            device matches Some(d) ==> d.wf(),
        ensures
            c.wf(),
            c.name == name,
            c.parent == parent,
            c.device == device,
            c.state == ChildState::Init,
            c.sync_state == ChildSyncState::Synced,
            c.destroy_state == ChildDestroyState::NotDestroying,
            c.faulted_at is None,
            c.device_descriptor is None,
            c.io_log is None,
            !c.unplug_signal,
            c.dr_events@ =~= Seq::<DrEvent>::empty(),
    {
        NexusChild {
            parent,
            name,
            state: ChildState::Init,
            sync_state: ChildSyncState::Synced,
            destroy_state: ChildDestroyState::NotDestroying,
            faulted_at: None,
            device,
            device_descriptor: None,
            io_log: None,
            unplug_signal: false,
            dr_events: Vec::new(),
        }
    }

    /// Returns the state of the child.
    pub fn state(&self) -> (r: ChildState)
        ensures
            r == self.state,
    {
        self.state
    }

    /// Returns the state of the child from the client API perspective.
    pub fn state_client(&self) -> (r: ChildStateClient)
        ensures
            r == spec_state_client(
                self.state,
                self.sync_state,
                self.spec_is_destroying(),
                self.device_descriptor is Some,
            ),
    {
        if self.is_opened_unsync() {
            return ChildStateClient::OutOfSync;
        }
        match self.state {
            ChildState::Init => ChildStateClient::Init,
            ChildState::ConfigInvalid => ChildStateClient::ConfigInvalid,
            ChildState::Open => ChildStateClient::Open,
            ChildState::Closed => ChildStateClient::Closed,
            ChildState::Faulted(r) => {
                if self.is_destroying() || self.device_descriptor.is_some() {
                    ChildStateClient::Faulting(r)
                } else {
                    ChildStateClient::Faulted(r)
                }
            },
        }
    }

    /// Returns the sync state of the child.
    pub fn sync_state(&self) -> (r: ChildSyncState)
        ensures
            r == self.sync_state,
    {
        self.sync_state
    }

    /// Sets the sync state of the child.
    pub fn set_sync_state(&mut self, s: ChildSyncState)
        ensures
            *final(self) == (Self { sync_state: s, ..*old(self) }),
    {
        self.sync_state = s;
    }

    /// Returns the destroy state of the child.
    pub fn destroy_state(&self) -> (r: ChildDestroyState)
        ensures
            r == self.destroy_state,
    {
        self.destroy_state
    }

    /// Determines if the child is being destroyed.
    pub fn is_destroying(&self) -> (r: bool)
        ensures
            r == self.spec_is_destroying(),
    {
        matches!(self.destroy_state, ChildDestroyState::Destroying)
    }

    /// Return the last fault timestamp of the child.
    pub fn fault_timestamp(&self) -> (r: Option<i64>)
        ensures
            r == self.faulted_at,
    {
        self.faulted_at
    }

    /// Sets the timestamp of this child fault to now.
    fn set_fault_timestamp(&mut self)
        ensures
            final(self).faulted_at is Some,
            *final(self) == (Self { faulted_at: final(self).faulted_at, ..*old(self) }),
    {
        self.faulted_at = Some(clock::now_millis());
    }

    /// Unconditionally sets the child's state as faulted with the given
    /// reason.
    pub fn set_faulted_state(&mut self, reason: FaultReason)
        ensures
            final(self).faulted_at is Some,
            *final(self) == (Self {
                state: ChildState::Faulted(reason),
                faulted_at: final(self).faulted_at,
                ..*old(self)
            }),
    {
        self.state = ChildState::Faulted(reason);
        self.set_fault_timestamp();
    }

    /// Determines if the child is opened.
    pub fn is_opened(&self) -> (r: bool)
        ensures
            r == (self.state == ChildState::Open),
    {
        self.state == ChildState::Open
    }

    /// Determines if the child is opened but out of sync (awaiting a
    /// rebuild or being rebuilt).
    pub fn is_opened_unsync(&self) -> (r: bool)
        ensures
            r == (self.state == ChildState::Open && self.sync_state == ChildSyncState::OutOfSync),
    {
        self.state == ChildState::Open && self.sync_state == ChildSyncState::OutOfSync
    }

    /// Determines if the child is being rebuilt: a rebuild job targets it
    /// (the job registry is kept by the caller) and it is opened but out
    /// of sync.
    pub fn is_rebuilding(&self, has_rebuild_job: bool) -> (r: bool)
        ensures
            r == (has_rebuild_job && self.state == ChildState::Open && self.sync_state
                == ChildSyncState::OutOfSync),
    {
        has_rebuild_job && self.is_opened_unsync()
    }

    /// Determines if the child is opened and fully synced.
    pub fn is_healthy(&self) -> (r: bool)
        ensures
            r == (self.state == ChildState::Open && self.sync_state == ChildSyncState::Synced),
    {
        self.state == ChildState::Open && self.sync_state == ChildSyncState::Synced
    }

    /// Get the URI of this nexus child.
    pub fn uri(&self) -> (r: &str)
        ensures
            r@ == self.name@,
    {
        self.name.as_str()
    }

    /// Get the name of the nexus this child belongs to.
    pub fn nexus_name(&self) -> (r: &str)
        ensures
            r@ == self.parent@,
    {
        self.parent.as_str()
    }

    /// Get the UUID of this nexus child, if its URI carries one.
    pub fn get_uuid(&self) -> (r: Option<String>)
        ensures
            (r is Some) == (uri::spec_uri_uuid(self.name@) is Some),
            r matches Some(s) ==> Some(s@) == uri::spec_uri_uuid(self.name@),
    {
        uri::uri_uuid(self.name.as_str())
    }

    /// Returns a reference to the child's block device.
    pub fn get_device(&self) -> (r: Result<&BlockDeviceInfo, ChildError>)
        ensures
            (r is Ok) == (self.device is Some),
            r matches Ok(d) ==> *d == self.device->Some_0,
            r matches Err(e) ==> e == ChildError::ChildInaccessible,
    {
        match &self.device {
            Some(device) => Ok(device),
            None => Err(ChildError::ChildInaccessible),
        }
    }

    /// Name of the underlying block device, if one is owned.
    pub fn get_device_name(&self) -> (r: Option<String>)
        ensures
            (r is Some) == (self.device is Some),
            r matches Some(n) ==> n@ == self.device->Some_0.device_name@,
    {
        match &self.device {
            Some(device) => Some(device.device_name.clone()),
            None => None,
        }
    }

    /// Whether the underlying device carries the given name.
    pub fn match_device_name(&self, bdev_name: &str) -> (r: bool)
        ensures
            r == (self.device matches Some(d) && d.device_name@ == bdev_name@),
    {
        match &self.device {
            Some(device) => device.device_name == bdev_name.to_owned(),
            None => false,
        }
    }

    /// Determine if the child is local to the nexus (on the same node): a
    /// local child is not exported over nvme.
    pub fn is_local(&self) -> (r: Option<bool>)
        ensures
            (r is Some) == (self.device is Some),
            r matches Some(local) ==> local == (self.device->Some_0.driver_name@ != "nvme"@),
    {
        match &self.device {
            Some(device) => Some(!(device.driver_name == String::from_str("nvme"))),
            None => None,
        }
    }

    /// Open the child read-write and claim the device.
    ///
    /// Only a child that is not being destroyed, not permanently faulted
    /// and not already open can be opened; opening an `Open` child is a
    /// no-op returning its URI.  A child smaller than the parent is
    /// refused and marked `ConfigInvalid`; a device-layer refusal marks
    /// the child `Faulted(CantOpen)`.  A child that reaches the device
    /// checks must own one: the caller creates the device before opening.
    pub fn open(&mut self, parent_size: u64, sync_state: ChildSyncState) -> (r: Result<
        String,
        ChildError,
    >)
        requires
            old(self).wf(),
            old(self).open_proceeds() ==> old(self).device is Some,
        ensures
            final(self).wf(),
            old(self).same_identity(*final(self)),
            final(self).device == old(self).device,
            final(self).io_log == old(self).io_log,
            final(self).destroy_state == old(self).destroy_state,
            final(self).dr_events == old(self).dr_events,
            final(self).unplug_signal == old(self).unplug_signal,
            old(self).spec_is_destroying() ==> r == Err::<String, ChildError>(
                ChildError::ChildBeingDestroyed,
            ) && *final(self) == *old(self),
            !old(self).spec_is_destroying() && old(self).spec_faulted_nonrecoverable() ==> r
                == Err::<String, ChildError>(ChildError::ChildFaulted) && *final(self) == *old(self),
            !old(self).spec_is_destroying() && !old(self).spec_faulted_nonrecoverable() && old(self).state == ChildState::Open ==> (r matches Ok(u) && u@ == old(self).name@) && *final(self) == *old(self),
            old(self).device matches Some(d) && old(self).open_proceeds() && parent_size
                > d.spec_size_in_bytes() ==> r == Err::<String, ChildError>(
                (ChildError::ChildTooSmall {
                    child_size: (old(self).device->Some_0.num_blocks * old(
                        self,
                    ).device->Some_0.block_len) as u64,
                    parent_size: parent_size,
                }),
            ) && *final(self) == (Self { state: ChildState::ConfigInvalid, ..*old(self) }),
            old(self).device matches Some(d) && old(self).open_proceeds() && parent_size
                <= d.spec_size_in_bytes() && !d.open_ok ==> r == Err::<String, ChildError>(
                ChildError::OpenChild,
            ) && *final(self) == (Self {
                state: ChildState::Faulted(FaultReason::CantOpen),
                faulted_at: final(self).faulted_at,
                ..*old(self)
            }) && final(self).faulted_at is Some,
            old(self).device matches Some(d) && old(self).open_proceeds() && parent_size
                <= d.spec_size_in_bytes() && d.open_ok ==> (r matches Ok(u) && u@ == old(self).name@) && *final(self) == (Self {
                state: ChildState::Open,
                sync_state: sync_state,
                device_descriptor: Some((DeviceDescriptor { claimed: true })),
                ..*old(self)
            }),
    {
        if self.is_destroying() {
            return Err(ChildError::ChildBeingDestroyed);
        }
        match self.state {
            ChildState::Faulted(s) => {
                if !s.is_recoverable() {
                    return Err(ChildError::ChildFaulted);
                }
            },
            ChildState::Open => {
                return Ok(self.name.clone());
            },
            _ => {},
        }
        let child_size = match &self.device {
            Some(device) => device.size_in_bytes(),
            None => {
                // Unreachable: the caller supplies a device on this path.
                proof {
                    assert(false);
                }
                return Err(ChildError::ChildInaccessible);
            },
        };
        if parent_size > child_size {
            self.state = ChildState::ConfigInvalid;
            return Err(ChildError::ChildTooSmall { child_size, parent_size });
        }
        let opened = match &self.device {
            Some(device) => device.open_ok,
            None => false,
        };
        if !opened {
            self.set_faulted_state(FaultReason::CantOpen);
            return Err(ChildError::OpenChild);
        }
        self.device_descriptor = Some(DeviceDescriptor { claimed: true });
        self.state = ChildState::Open;
        self.sync_state = sync_state;
        Ok(self.name.clone())
    }

    /// Closes the nexus child.
    ///
    /// At most one destroy choreography runs per close: a close that
    /// observes `Destroying` returns success without side effects, as does
    /// one that finds no device.  Otherwise the claim is released and the
    /// device destroyed — which raises the removal event, here delivered
    /// synchronously to `unplug` — and the rendezvous signal is consumed
    /// before the destroy state is reset.  A destroy the device layer
    /// refuses surfaces as the error, with the destroy state reset and the
    /// device kept.
    pub fn close(&mut self) -> (r: Result<(), DeviceError>)
        requires
            old(self).wf(),
        ensures
            final(self).wf(),
            (r is Ok) == (old(self).spec_is_destroying() || old(self).device is None || old(
                self,
            ).device->Some_0.destroy_ok),
            r matches Err(e) ==> e == DeviceError::DestroyFailed,
            old(self).same_identity(*final(self)),
            old(self).spec_is_destroying() ==> *final(self) == *old(self),
            !old(self).spec_is_destroying() && old(self).device is None ==> *final(self) == *old(self),
            old(self).device matches Some(d) && !old(self).spec_is_destroying() && !d.destroy_ok
                ==> {
                &&& final(self).destroy_state == ChildDestroyState::NotDestroying
                &&& final(self).device == old(self).device
                &&& final(self).state == old(self).state
                &&& final(self).sync_state == old(self).sync_state
                &&& final(self).faulted_at == old(self).faulted_at
                &&& final(self).io_log == old(self).io_log
                &&& final(self).dr_events == old(self).dr_events
                &&& final(self).unplug_signal == old(self).unplug_signal
                &&& (old(self).device_descriptor is None ==> final(self).device_descriptor
                    is None)
                &&& (old(self).device_descriptor is Some ==> final(self).device_descriptor
                    == Some((DeviceDescriptor { claimed: false })))
            },
            old(self).device matches Some(d) && !old(self).spec_is_destroying() && d.destroy_ok
                ==> {
                &&& final(self).device is None
                &&& final(self).device_descriptor is None
                &&& final(self).destroy_state == ChildDestroyState::NotDestroying
                &&& final(self).state == (if old(self).state == ChildState::Open {
                    ChildState::Closed
                } else {
                    old(self).state
                })
                &&& final(self).dr_events@ == (if old(self).state != ChildState::Faulted(
                    FaultReason::IoError,
                ) {
                    old(self).dr_events@.push(DrEvent::ChildUnplug)
                } else {
                    old(self).dr_events@
                })
                &&& final(self).sync_state == old(self).sync_state
                &&& final(self).faulted_at == old(self).faulted_at
                &&& final(self).io_log == old(self).io_log
                &&& final(self).unplug_signal == (old(self).state == ChildState::Init)
            },
    {
        if self.is_destroying() {
            // Lost the race: another close owns the destroy choreography.
            return Ok(());
        }
        self.destroy_state = ChildDestroyState::Destroying;
        if self.device.is_none() {
            self.destroy_state = ChildDestroyState::NotDestroying;
            return Ok(());
        }
        if self.device_descriptor.is_some() {
            // Release the claim without dropping the descriptor.
            match &mut self.device_descriptor {
                Some(descriptor) => descriptor.claimed = false,
                None => {},
            }
        }
        let destroy_ok = match &self.device {
            Some(device) => device.destroy_ok,
            None => false,
        };
        if !destroy_ok {
            // The device layer refused the destroy: surface the error.
            self.destroy_state = ChildDestroyState::NotDestroying;
            return Err(DeviceError::DestroyFailed);
        }
        // Destroying the device raises a removal event, handled by unplug.
        self.unplug();
        if !(self.state == ChildState::Init) {
            // Wait for the unplug rendezvous; the event was delivered
            // synchronously above, so the token is present.
            self.unplug_signal = false;
        }
        self.destroy_state = ChildDestroyState::NotDestroying;
        Ok(())
    }

    /// Closes the child and forces a faulted state.
    pub fn close_faulted(&mut self, reason: FaultReason)
        requires
            old(self).wf(),
        ensures
            final(self).wf(),
            old(self).same_identity(*final(self)),
            final(self).state == ChildState::Faulted(reason),
            final(self).faulted_at is Some,
            old(self).device matches Some(d) && !old(self).spec_is_destroying() && d.destroy_ok
                ==> final(self).device is None && final(self).device_descriptor is None,
    {
        let _ = self.close();
        self.set_faulted_state(reason);
    }

    /// Called in response to a device removal event, for either a
    /// programmed destroy or a hot remove.
    ///
    /// On a programmed destroy the device and — last of all — the
    /// descriptor are dropped: dropping the claim is what completes the
    /// removal.  On a hot remove both are kept for a possible
    /// administrative restart.  An `Open` child leaves the I/O path; the
    /// parent is asked to reconfigure unless the I/O path already did so
    /// on an I/O error fault.
    pub fn unplug(&mut self)
        requires
            old(self).wf(),
        ensures
            final(self).wf(),
            old(self).same_identity(*final(self)),
            final(self).sync_state == old(self).sync_state,
            final(self).destroy_state == old(self).destroy_state,
            final(self).faulted_at == old(self).faulted_at,
            final(self).io_log == old(self).io_log,
            old(self).spec_is_destroying() ==> final(self).device is None && final(self).device_descriptor is None,
            !old(self).spec_is_destroying() ==> final(self).device == old(self).device && final(self).device_descriptor == old(self).device_descriptor,
            final(self).state == (if old(self).state == ChildState::Open {
                ChildState::Closed
            } else {
                old(self).state
            }),
            final(self).dr_events@ == (if old(self).state != ChildState::Faulted(
                FaultReason::IoError,
            ) {
                old(self).dr_events@.push(DrEvent::ChildUnplug)
            } else {
                old(self).dr_events@
            }),
            final(self).unplug_signal,
    {
        let state = self.state;
        let is_destroying = self.is_destroying();
        if is_destroying {
            // Only drop the device for a programmed destroy; a hot-removed
            // child keeps it.
            self.device = None;
        }
        if matches!(state, ChildState::Open) {
            // Take the child out of the I/O path before the device goes.
            self.state = ChildState::Closed;
        }
        if !(state == ChildState::Faulted(FaultReason::IoError)) {
            // On an I/O error the channels were already reconfigured.
            self.dr_events.push(DrEvent::ChildUnplug);
        }
        if is_destroying {
            // Dropping the last descriptor completes the device removal.
            self.device_descriptor = None;
        }
        self.unplug_complete();
    }

    /// Signal that the child unplug is complete.
    fn unplug_complete(&mut self)
        ensures
            *final(self) == (Self { unplug_signal: true, ..*old(self) }),
    {
        self.unplug_signal = true;
    }

    /// Onlines a previously offlined child.
    ///
    /// The caller re-creates the underlying block device from the child's
    /// URI and passes the result of looking it up; `None` means the device
    /// could not be found after creation.  An onlined child is opened
    /// out-of-sync: it must be rebuilt before it serves reads.
    pub fn online(&mut self, parent_size: u64, device: Option<BlockDeviceInfo>) -> (r: Result<
        String,
        ChildError,
    >)
        requires
            old(self).wf(),
            device matches Some(d) ==> d.wf(),
        ensures
            final(self).wf(),
            old(self).same_identity(*final(self)),
            old(self).state.spec_is_open_or_init() ==> r == Err::<String, ChildError>(
                ChildError::CannotOnlineChild,
            ) && *final(self) == *old(self),
            !old(self).state.spec_is_open_or_init() && old(self).spec_is_destroying() ==> r
                == Err::<String, ChildError>(ChildError::ChildBeingDestroyed) && *final(self)
                == *old(self),
            !old(self).state.spec_is_open_or_init() && !old(self).spec_is_destroying() && !old(self).state.spec_is_recoverable() ==> r == Err::<String, ChildError>(
                ChildError::PermanentlyFaulted,
            ) && *final(self) == *old(self),
            !old(self).state.spec_is_open_or_init() && !old(self).spec_is_destroying() && old(self).state.spec_is_recoverable() ==> {
                &&& device is None ==> r == Err::<String, ChildError>(ChildError::ChildInaccessible)
                    && *final(self) == (Self { device: None, ..*old(self) })
                &&& device matches Some(d) ==> {
                    &&& final(self).device == device
                    &&& parent_size > d.spec_size_in_bytes() ==> r == Err::<String, ChildError>(
                        (ChildError::ChildTooSmall {
                            child_size: (device->Some_0.num_blocks
                                * device->Some_0.block_len) as u64,
                            parent_size: parent_size,
                        }),
                    ) && final(self).state == ChildState::ConfigInvalid
                    &&& parent_size <= d.spec_size_in_bytes() && !d.open_ok ==> r == Err::<
                        String,
                        ChildError,
                    >(ChildError::OpenChild) && final(self).state == ChildState::Faulted(
                        FaultReason::CantOpen,
                    )
                    &&& parent_size <= d.spec_size_in_bytes() && d.open_ok ==> (r matches Ok(u)
                        && u@ == old(self).name@) && final(self).state == ChildState::Open && final(self).sync_state == ChildSyncState::OutOfSync && final(self).device_descriptor
                        == Some((DeviceDescriptor { claimed: true }))
                }
            },
    {
        let state = self.state;
        if state.is_open_or_init() {
            return Err(ChildError::CannotOnlineChild);
        }
        if self.is_destroying() {
            return Err(ChildError::ChildBeingDestroyed);
        }
        if !state.is_recoverable() {
            return Err(ChildError::PermanentlyFaulted);
        }
        // The block device was re-created from the URI by the device
        // layer; take the lookup result.
        self.device = device;
        if self.device.is_none() {
            return Err(ChildError::ChildInaccessible);
        }
        self.open(parent_size, ChildSyncState::OutOfSync)
    }

    /// Creates a new I/O log, if none existed.  Returns true if a log has
    /// been created or already exists, false if I/O logging is disabled
    /// for this child for whatever reason.
    ///
    /// An I/O log is never created for a child that is not fully synced:
    /// such a child will be rebuilt wholesale.  The process-wide partial
    /// rebuild toggle is passed in by the caller.
    pub fn start_io_log(&mut self, partial_rebuild_enabled: bool) -> (r: bool)
        requires
            old(self).wf(),
            old(self).device matches Some(d) ==> d.block_len <= SEGMENT_SIZE && d.num_blocks
                <= u64::MAX - SEGMENT_SIZE && spec_num_segments(
                d.num_blocks as int,
                SEGMENT_SIZE as int / d.block_len as int,
            ) <= usize::MAX as int,
        ensures
            final(self).wf(),
            *final(self) == (Self { io_log: final(self).io_log, ..*old(self) }),
            !partial_rebuild_enabled ==> *final(self) == *old(self) && r == false,
            partial_rebuild_enabled && old(self).sync_state == ChildSyncState::OutOfSync ==> *final(self) == *old(self) && r == false,
            partial_rebuild_enabled && old(self).sync_state == ChildSyncState::Synced && old(self).io_log is Some ==> *final(self) == *old(self) && r == true,
            partial_rebuild_enabled && old(self).sync_state == ChildSyncState::Synced && old(self).io_log is None && old(self).device is Some ==> r == true && (final(self).io_log matches Some(l) && l.map.all_clean() && l.map.num_blocks == old(self).device->Some_0.num_blocks
                && l.block_len == old(self).device->Some_0.block_len),
            partial_rebuild_enabled && old(self).sync_state == ChildSyncState::Synced && old(self).io_log is None && old(self).device is None ==> *final(self) == *old(self) && r
                == false,
    {
        if !partial_rebuild_enabled {
            return false;
        }
        if self.sync_state() == ChildSyncState::OutOfSync {
            return false;
        }
        if self.io_log.is_none() {
            match &self.device {
                Some(device) => {
                    self.io_log = Some(
                        IOLog::new(device.device_name.clone(), device.num_blocks, device.block_len),
                    );
                },
                None => {},
            }
        }
        self.io_log.is_some()
    }

    /// Stops the I/O log and returns the map of segments to be rebuilt.
    /// On a quiescent child — no write was logged — the map is empty.
    pub fn stop_io_log(&mut self) -> (r: Option<RebuildMap>)
        ensures
            *final(self) == (Self { io_log: None, ..*old(self) }),
            (r is Some) == (old(self).io_log is Some),
            r matches Some(m) ==> m == old(self).io_log->Some_0.map,
            (old(self).io_log matches Some(l) && l.map.all_clean()) ==> r->Some_0.spec_count_dirty_blks() == 0,
    {
        let log = self.io_log.take();
        match log {
            Some(log) => {
                proof {
                    if log.map.all_clean() {
                        log.map.lemma_clean_map_has_no_dirty_blocks();
                    }
                }
                Some(log.finalize())
            },
            None => None,
        }
    }

    /// Determines if the child has an active I/O log.
    pub fn has_io_log(&self) -> (r: bool)
        ensures
            r == (self.io_log is Some),
    {
        self.io_log.is_some()
    }

    /// Mark a written block range dirty in the child's I/O log, if one is
    /// running.  The write path calls this for every write mirrored to an
    /// out-of-date child.
    pub fn log_io(&mut self, blk: u64, num_blks: u64)
        requires
            old(self).wf(),
            old(self).io_log matches Some(l) ==> num_blks > 0 && blk + num_blks
                <= l.map.num_blocks,
        ensures
            final(self).wf(),
            *final(self) == (Self { io_log: final(self).io_log, ..*old(self) }),
            (final(self).io_log is Some) == (old(self).io_log is Some),
            old(self).io_log matches Some(l) ==> final(self).io_log matches Some(l2)
                && l2.block_len == l.block_len && l2.map.num_blocks == l.map.num_blocks
                && l2.map.segment_size_blks == l.map.segment_size_blks && l2.map.dirty.len()
                == l.map.dirty.len() && forall|i: int|
                0 <= i < l.map.dirty.len() ==> l2.map.spec_dirty(i) == (l.map.spec_dirty(i) || (
                blk as int / l.map.segment_size_blks as int <= i && i <= (blk + num_blks - 1) as int
                    / l.map.segment_size_blks as int)),
    {
        match &mut self.io_log {
            Some(log) => log.log_io(blk, num_blks),
            None => {},
        }
    }
}

} // verus!
