use io_engine::child::NexusChild;
use io_engine::child_state::ChildSyncState;
use io_engine::device::BlockDeviceInfo;
use io_engine::iolog::IOLog;

fn device(num_blocks: u64, block_len: u64) -> BlockDeviceInfo {
    BlockDeviceInfo {
        device_name: "bdev0".to_string(),
        driver_name: "aio".to_string(),
        num_blocks,
        block_len,
        open_ok: true,
        destroy_ok: true,
    }
}

#[test]
fn quiescent_log_finalizes_empty() {
    // start_io_log then stop_io_log with no writes in between: the
    // resulting rebuild map has nothing to rebuild.
    let mut c = NexusChild::new(
        "aio:///d".to_string(),
        "n".to_string(),
        Some(device(1024, 4096)),
    );
    assert!(c.start_io_log(true));
    assert!(c.has_io_log());
    let map = c.stop_io_log().unwrap();
    assert_eq!(map.count_dirty_blks(), 0);
    assert!(!c.has_io_log());
}

#[test]
fn io_log_disabled_by_toggle() {
    let mut c = NexusChild::new(
        "aio:///d".to_string(),
        "n".to_string(),
        Some(device(1024, 4096)),
    );
    assert!(!c.start_io_log(false));
    assert!(!c.has_io_log());
}

#[test]
fn io_log_not_started_out_of_sync() {
    // An out-of-sync child will be rebuilt wholesale: no point logging.
    let mut c = NexusChild::new(
        "aio:///d".to_string(),
        "n".to_string(),
        Some(device(1024, 4096)),
    );
    c.set_sync_state(ChildSyncState::OutOfSync);
    assert!(!c.start_io_log(true));
    assert!(!c.has_io_log());
}

#[test]
fn io_log_not_started_without_device() {
    let mut c = NexusChild::new("aio:///d".to_string(), "n".to_string(), None);
    assert!(!c.start_io_log(true));
}

#[test]
fn start_io_log_is_idempotent() {
    let mut c = NexusChild::new(
        "aio:///d".to_string(),
        "n".to_string(),
        Some(device(1024, 4096)),
    );
    assert!(c.start_io_log(true));
    assert!(c.start_io_log(true));
    assert!(c.has_io_log());
}

#[test]
fn marked_segments_come_out_dirty() {
    // 4096-byte blocks: a 64 KiB segment holds 16 blocks.
    let mut log = IOLog::new("bdev0".to_string(), 1024, 4096);
    log.log_io(48, 16);
    log.log_io(112, 16);
    let map = log.finalize();
    assert_eq!(map.count_dirty_blks(), 32);
    assert!(map.is_blk_clean(0));
    assert!(!map.is_blk_clean(48));
    assert!(!map.is_blk_clean(63));
    assert!(map.is_blk_clean(64));
    assert!(!map.is_blk_clean(112));
    assert!(map.is_blk_clean(128));
}

#[test]
fn one_write_spanning_two_segments_marks_both() {
    let mut log = IOLog::new("bdev0".to_string(), 1024, 4096);
    log.log_io(15, 2);
    let map = log.finalize();
    assert_eq!(map.count_dirty_blks(), 32);
    assert!(!map.is_blk_clean(0));
    assert!(!map.is_blk_clean(16));
    assert!(map.is_blk_clean(32));
}

#[test]
fn last_segment_is_clamped_to_device_end() {
    // 1000 blocks at 16 blocks per segment: the last segment covers only
    // 8 blocks.
    let mut log = IOLog::new("bdev0".to_string(), 1000, 4096);
    log.log_io(996, 4);
    let map = log.finalize();
    assert_eq!(map.count_dirty_blks(), 8);
}

#[test]
fn child_log_io_marks_through_the_child() {
    let mut c = NexusChild::new(
        "aio:///d".to_string(),
        "n".to_string(),
        Some(device(1024, 4096)),
    );
    assert!(c.start_io_log(true));
    c.log_io(0, 1);
    let map = c.stop_io_log().unwrap();
    assert_eq!(map.count_dirty_blks(), 16);
}

#[test]
fn clearing_a_segment_empties_the_map() {
    let mut log = IOLog::new("bdev0".to_string(), 64, 4096);
    log.log_io(20, 4);
    let mut map = log.finalize();
    assert_eq!(map.count_dirty_blks(), 16);
    map.blk_clean(20);
    assert_eq!(map.count_dirty_blks(), 0);
    assert!(map.is_blk_clean(20));
}
