use io_engine::child::{ChildError, DeviceError, DrEvent, NexusChild};
use io_engine::child_state::{
    ChildDestroyState, ChildState, ChildStateClient, ChildSyncState, FaultReason,
};
use io_engine::device::BlockDeviceInfo;

fn device(num_blocks: u64, block_len: u64, open_ok: bool) -> BlockDeviceInfo {
    BlockDeviceInfo {
        device_name: "bdev0".to_string(),
        driver_name: "aio".to_string(),
        num_blocks,
        block_len,
        open_ok,
        destroy_ok: true,
    }
}

fn open_child(num_blocks: u64, block_len: u64) -> NexusChild {
    let mut c = NexusChild::new(
        "aio:///disk0?uuid=11111111-0000-0000-0000-000000000000".to_string(),
        "nexus0".to_string(),
        Some(device(num_blocks, block_len, true)),
    );
    let uri = c.open(num_blocks * block_len, ChildSyncState::Synced);
    assert!(uri.is_ok());
    c
}

#[test]
fn new_child_starts_in_init() {
    let c = NexusChild::new("aio:///d".to_string(), "n".to_string(), None);
    assert_eq!(c.state(), ChildState::Init);
    assert_eq!(c.sync_state(), ChildSyncState::Synced);
    assert_eq!(c.destroy_state(), ChildDestroyState::NotDestroying);
    assert_eq!(c.fault_timestamp(), None);
    assert!(!c.has_io_log());
    assert_eq!(c.uri(), "aio:///d");
    assert_eq!(c.nexus_name(), "n");
}

#[test]
fn open_equal_sizes_succeeds() {
    // The parent exactly fills the child: open must succeed.
    let mut c = NexusChild::new(
        "aio:///disk0".to_string(),
        "nexus0".to_string(),
        Some(device(1024, 4096, true)),
    );
    let r = c.open(1024 * 4096, ChildSyncState::Synced);
    assert_eq!(r.unwrap(), "aio:///disk0");
    assert_eq!(c.state(), ChildState::Open);
    assert!(c.is_opened());
    assert!(c.is_healthy());
    assert!(!c.is_opened_unsync());
}

#[test]
fn open_is_idempotent_on_open_child() {
    let mut c = open_child(1024, 4096);
    let before_events = c.dr_events.len();
    let r = c.open(1024 * 4096, ChildSyncState::Synced);
    assert_eq!(
        r.unwrap(),
        "aio:///disk0?uuid=11111111-0000-0000-0000-000000000000"
    );
    assert_eq!(c.state(), ChildState::Open);
    assert_eq!(c.dr_events.len(), before_events);
}

#[test]
fn open_child_too_small() {
    // 512 blocks of 4096 bytes = 2097152; parent wants 4194304.
    let mut c = NexusChild::new(
        "aio:///small".to_string(),
        "nexus0".to_string(),
        Some(device(512, 4096, true)),
    );
    let r = c.open(1024 * 4096, ChildSyncState::Synced);
    assert_eq!(
        r.unwrap_err(),
        ChildError::ChildTooSmall { child_size: 2097152, parent_size: 4194304 }
    );
    assert_eq!(c.state(), ChildState::ConfigInvalid);
}

#[test]
fn open_device_refusal_faults_child() {
    let mut c = NexusChild::new(
        "aio:///bad".to_string(),
        "nexus0".to_string(),
        Some(device(1024, 4096, false)),
    );
    let r = c.open(1024 * 4096, ChildSyncState::Synced);
    assert_eq!(r.unwrap_err(), ChildError::OpenChild);
    assert_eq!(c.state(), ChildState::Faulted(FaultReason::CantOpen));
    assert!(c.fault_timestamp().is_some());
}

#[test]
fn open_rejects_permanent_fault() {
    let mut c = NexusChild::new(
        "aio:///d".to_string(),
        "n".to_string(),
        Some(device(16, 512, true)),
    );
    c.set_faulted_state(FaultReason::OfflinePermanent);
    let r = c.open(16 * 512, ChildSyncState::Synced);
    assert_eq!(r.unwrap_err(), ChildError::ChildFaulted);
    assert_eq!(c.state(), ChildState::Faulted(FaultReason::OfflinePermanent));
}

#[test]
fn open_rejects_destroying_child() {
    let mut c = NexusChild::new(
        "aio:///d".to_string(),
        "n".to_string(),
        Some(device(16, 512, true)),
    );
    c.destroy_state = ChildDestroyState::Destroying;
    let r = c.open(16 * 512, ChildSyncState::Synced);
    assert_eq!(r.unwrap_err(), ChildError::ChildBeingDestroyed);
}

#[test]
fn close_on_unopened_child_is_success_and_keeps_state() {
    let mut c = NexusChild::new("aio:///d".to_string(), "n".to_string(), None);
    assert!(c.close().is_ok());
    assert_eq!(c.state(), ChildState::Init);
    assert_eq!(c.destroy_state(), ChildDestroyState::NotDestroying);
}

#[test]
fn concurrent_close_observes_destroying_and_backs_off() {
    let mut c = open_child(1024, 4096);
    c.destroy_state = ChildDestroyState::Destroying;
    let events = c.dr_events.len();
    assert!(c.close().is_ok());
    // The losing close performed no side effects.
    assert_eq!(c.state(), ChildState::Open);
    assert!(c.device.is_some());
    assert!(c.device_descriptor.is_some());
    assert_eq!(c.dr_events.len(), events);
    assert_eq!(c.destroy_state(), ChildDestroyState::Destroying);
}

#[test]
fn close_open_child_reaches_closed_without_device() {
    let mut c = open_child(1024, 4096);
    assert!(c.close().is_ok());
    assert_eq!(c.state(), ChildState::Closed);
    assert!(c.device.is_none());
    assert!(c.device_descriptor.is_none());
    assert_eq!(c.destroy_state(), ChildDestroyState::NotDestroying);
    assert_eq!(c.dr_events.last(), Some(&DrEvent::ChildUnplug));
}

#[test]
fn hot_remove_during_open_keeps_device_and_descriptor() {
    let mut c = open_child(1024, 4096);
    c.unplug();
    assert_eq!(c.state(), ChildState::Closed);
    assert!(c.device.is_some());
    assert!(c.device_descriptor.is_some());
    assert_eq!(c.dr_events, vec![DrEvent::ChildUnplug]);
}

#[test]
fn unplug_skips_reconfigure_after_io_error() {
    let mut c = open_child(1024, 4096);
    c.set_faulted_state(FaultReason::IoError);
    c.unplug();
    // The I/O path already reconfigured when the error was seen.
    assert!(c.dr_events.is_empty());
}

#[test]
fn close_online_cycle_reopens_out_of_sync() {
    let mut c = open_child(1024, 4096);
    assert!(c.close().is_ok());
    assert_eq!(c.state(), ChildState::Closed);
    assert!(c.device.is_none());
    let r = c.online(1024 * 4096, Some(device(1024, 4096, true)));
    assert!(r.is_ok());
    assert_eq!(c.state(), ChildState::Open);
    assert_eq!(c.sync_state(), ChildSyncState::OutOfSync);
    assert!(c.is_opened_unsync());
    assert!(!c.is_healthy());
}

#[test]
fn online_rejects_open_child() {
    let mut c = open_child(1024, 4096);
    let r = c.online(1024 * 4096, Some(device(1024, 4096, true)));
    assert_eq!(r.unwrap_err(), ChildError::CannotOnlineChild);
}

#[test]
fn online_rejects_permanent_fault() {
    let mut c = open_child(1024, 4096);
    c.close_faulted(FaultReason::OfflinePermanent);
    let r = c.online(1024 * 4096, Some(device(1024, 4096, true)));
    assert_eq!(r.unwrap_err(), ChildError::PermanentlyFaulted);
    assert_ne!(c.state(), ChildState::Open);
}

#[test]
fn online_without_device_is_inaccessible() {
    let mut c = open_child(1024, 4096);
    assert!(c.close().is_ok());
    let r = c.online(1024 * 4096, None);
    assert_eq!(r.unwrap_err(), ChildError::ChildInaccessible);
}

#[test]
fn close_faulted_reaches_faulted_with_timestamp() {
    let mut c = open_child(1024, 4096);
    c.close_faulted(FaultReason::IoError);
    assert_eq!(c.state(), ChildState::Faulted(FaultReason::IoError));
    assert!(c.fault_timestamp().is_some());
    assert!(c.device.is_none());
}

#[test]
fn state_client_projects_out_of_sync_and_faulting() {
    let mut c = open_child(1024, 4096);
    c.set_sync_state(ChildSyncState::OutOfSync);
    assert_eq!(c.state_client(), ChildStateClient::OutOfSync);
    c.set_sync_state(ChildSyncState::Synced);
    assert_eq!(c.state_client(), ChildStateClient::Open);
    // Faulted while still owning a descriptor: reported as Faulting.
    c.set_faulted_state(FaultReason::IoError);
    assert_eq!(c.state_client(), ChildStateClient::Faulting(FaultReason::IoError));
    c.device_descriptor = None;
    assert_eq!(c.state_client(), ChildStateClient::Faulted(FaultReason::IoError));
}

#[test]
fn get_uuid_reads_the_query_parameter() {
    let c = NexusChild::new(
        "malloc:///disk?blk_size=512&uuid=deadbeef-1111-2222-3333-444455556666".to_string(),
        "n".to_string(),
        None,
    );
    assert_eq!(
        c.get_uuid(),
        Some("deadbeef-1111-2222-3333-444455556666".to_string())
    );
    let c2 = NexusChild::new("malloc:///disk".to_string(), "n".to_string(), None);
    assert_eq!(c2.get_uuid(), None);
    let c3 = NexusChild::new("not a uri".to_string(), "n".to_string(), None);
    assert_eq!(c3.get_uuid(), None);
}

#[test]
fn is_local_depends_on_driver() {
    let mut c = NexusChild::new("x:///d".to_string(), "n".to_string(), None);
    assert_eq!(c.is_local(), None);
    c.device = Some(device(1, 512, true));
    assert_eq!(c.is_local(), Some(true));
    let mut remote = device(1, 512, true);
    remote.driver_name = "nvme".to_string();
    c.device = Some(remote);
    assert_eq!(c.is_local(), Some(false));
}

#[test]
fn device_name_accessors() {
    let mut c = NexusChild::new("x:///d".to_string(), "n".to_string(), None);
    assert_eq!(c.get_device_name(), None);
    assert!(!c.match_device_name("bdev0"));
    assert!(c.get_device().is_err());
    c.device = Some(device(1, 512, true));
    assert_eq!(c.get_device_name(), Some("bdev0".to_string()));
    assert!(c.match_device_name("bdev0"));
    assert!(!c.match_device_name("bdev1"));
    assert_eq!(c.get_device().unwrap().num_blocks, 1);
}

#[test]
fn is_rebuilding_needs_a_job_and_an_unsynced_open_child() {
    let mut c = open_child(1024, 4096);
    assert!(!c.is_rebuilding(true));
    c.set_sync_state(ChildSyncState::OutOfSync);
    assert!(c.is_rebuilding(true));
    assert!(!c.is_rebuilding(false));
}

#[test]
fn close_surfaces_a_refused_destroy() {
    let mut c = open_child(1024, 4096);
    c.device.as_mut().unwrap().destroy_ok = false;
    let r = c.close();
    assert_eq!(r.unwrap_err(), DeviceError::DestroyFailed);
    // The device stays; the claim was released; the destroy flag is reset.
    assert_eq!(c.state(), ChildState::Open);
    assert!(c.device.is_some());
    assert_eq!(c.destroy_state(), ChildDestroyState::NotDestroying);
    assert!(!c.device_descriptor.as_ref().unwrap().claimed);
    assert!(c.dr_events.is_empty());
}
