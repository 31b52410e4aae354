use io_engine::iolog::IOLog;
use io_engine::rebuild_backend::{RebuildJobBackend, RebuildJobRequest};
use io_engine::rebuild_state::{RebuildError, RebuildOperation, RebuildState};
use io_engine::storage::BlockStore;

fn store(num_blocks: usize, block_len: usize, fill: u8) -> BlockStore {
    BlockStore { block_len: block_len as u64, data: vec![fill; num_blocks * block_len] }
}

fn backend(
    num_blocks: usize,
    range: (u64, u64),
    requests: Vec<RebuildJobRequest>,
) -> RebuildJobBackend {
    RebuildJobBackend::new(
        "nexus0".to_string(),
        "aio:///src".to_string(),
        "aio:///dst".to_string(),
        range.0,
        range.1,
        store(num_blocks, 4096, 0xAA),
        store(num_blocks, 4096, 0x00),
        requests,
        1,
    )
    .unwrap()
}

#[test]
fn happy_path_rebuild_copies_everything() {
    // 1024 blocks of 0xAA rebuilt onto a zeroed destination.
    let mut b = backend(1024, (0, 1024), vec![RebuildJobRequest::Op(RebuildOperation::Start)]);
    b.run();
    assert_eq!(b.state(), RebuildState::Completed);
    assert_eq!(b.dst_store.data, b.src_store.data);
    let s = b.stats();
    assert_eq!(s.blocks_total, 1024);
    assert_eq!(s.blocks_recovered, 1024);
    assert_eq!(s.blocks_transferred, 1024);
    assert_eq!(s.blocks_remaining, 0);
    assert_eq!(s.progress, 100);
    assert!(!s.is_partial);
    assert_eq!(s.block_size, 4096);
    assert_eq!(s.blocks_per_task, 16);
    assert_eq!(s.tasks_total, 16);
    assert_eq!(s.tasks_active, 0);
}

#[test]
fn partial_rebuild_copies_only_dirty_segments() {
    // A rebuild map marking segments 3 and 7 dirty (blocks 48-63 and
    // 112-127): only those 32 blocks are written.  The map is installed
    // before the job runs.
    let mut log = IOLog::new("dst".to_string(), 1024, 4096);
    log.log_io(48, 16);
    log.log_io(112, 16);
    let map = log.finalize();
    let mut b = backend(1024, (0, 1024), vec![RebuildJobRequest::Op(RebuildOperation::Start)]);
    assert!(b.set_rebuild_map(map));
    b.run();
    assert_eq!(b.state(), RebuildState::Completed);
    let s = b.stats();
    assert_eq!(s.blocks_recovered, 1024);
    assert_eq!(s.blocks_transferred, 32);
    assert_eq!(s.blocks_remaining, 0);
    assert!(s.is_partial);
    for blk in 0..1024usize {
        let copied = (48..64).contains(&blk) || (112..128).contains(&blk);
        let expected = if copied { 0xAA } else { 0x00 };
        for i in blk * 4096..(blk + 1) * 4096 {
            assert_eq!(b.dst_store.data[i], expected, "byte {i} of block {blk}");
        }
    }
}

#[test]
fn empty_range_completes_immediately() {
    let mut b = backend(1024, (0, 0), vec![RebuildJobRequest::Op(RebuildOperation::Start)]);
    b.run();
    assert_eq!(b.state(), RebuildState::Completed);
    let s = b.stats();
    assert_eq!(s.blocks_total, 0);
    assert_eq!(s.blocks_recovered, 0);
    assert_eq!(s.blocks_remaining, 0);
    assert_eq!(s.progress, 100);
    assert_eq!(s.tasks_active, 0);
    // No destination byte was touched.
    assert!(b.dst_store.data.iter().all(|&x| x == 0));
}

#[test]
fn unaligned_range_end_is_clamped() {
    // 1000 blocks at 16 blocks per segment: 63 segments are attempted,
    // 63 * 16 = 1008 > 1000, and the stats clamp to the total.
    let mut b = backend(1000, (0, 1000), vec![RebuildJobRequest::Op(RebuildOperation::Start)]);
    b.run();
    assert_eq!(b.state(), RebuildState::Completed);
    assert_eq!(b.task_pool.segments_done, 63);
    let s = b.stats();
    assert_eq!(s.blocks_total, 1000);
    assert_eq!(s.blocks_recovered, 1000);
    assert_eq!(s.blocks_transferred, 1000);
    assert_eq!(s.progress, 100);
    assert_eq!(b.dst_store.data, b.src_store.data);
}

#[test]
fn range_beyond_device_is_invalid() {
    let r = RebuildJobBackend::new(
        "nexus0".to_string(),
        "aio:///src".to_string(),
        "aio:///dst".to_string(),
        0,
        2048,
        store(1024, 4096, 0xAA),
        store(1024, 4096, 0x00),
        vec![],
        1,
    );
    assert!(matches!(r, Err(RebuildError::InvalidParameters)));
}

#[test]
fn block_size_mismatch_is_invalid() {
    let r = RebuildJobBackend::new(
        "nexus0".to_string(),
        "aio:///src".to_string(),
        "aio:///dst".to_string(),
        0,
        512,
        store(1024, 4096, 0xAA),
        store(8192, 512, 0x00),
        vec![],
        1,
    );
    assert!(matches!(r, Err(RebuildError::InvalidParameters)));
}

#[test]
fn reversed_range_is_invalid() {
    let r = RebuildJobBackend::new(
        "nexus0".to_string(),
        "aio:///src".to_string(),
        "aio:///dst".to_string(),
        512,
        0,
        store(1024, 4096, 0xAA),
        store(1024, 4096, 0x00),
        vec![],
        1,
    );
    assert!(matches!(r, Err(RebuildError::InvalidParameters)));
}

#[test]
fn dropped_frontend_fails_the_job() {
    // No request ever arrives: the backend observes the frontend gone
    // and fails without copying anything.
    let mut b = backend(1024, (0, 1024), vec![]);
    b.run();
    assert_eq!(b.state(), RebuildState::Failed);
    assert_eq!(b.states.error, Some(RebuildError::FrontendGone));
    assert_eq!(b.task_pool.segments_done, 0);
    assert!(b.dst_store.data.iter().all(|&x| x == 0));
}

#[test]
fn pause_drains_in_flight_segments_then_rests() {
    // A pause queued behind the start: the pool's first wave of segments
    // completes, no further segment is dispatched, and the job then
    // fails with the frontend gone once the queue runs dry.
    let mut b = backend(
        1024,
        (0, 1024),
        vec![
            RebuildJobRequest::Op(RebuildOperation::Start),
            RebuildJobRequest::Op(RebuildOperation::Pause),
        ],
    );
    b.run();
    assert_eq!(b.state(), RebuildState::Failed);
    assert_eq!(b.states.error, Some(RebuildError::FrontendGone));
    // Exactly the first wave of one segment per task slot was copied.
    assert_eq!(b.task_pool.segments_done, 16);
    assert_eq!(b.stats().blocks_recovered, 256);
}

#[test]
fn stop_request_reaches_stopped() {
    let mut b = backend(
        1024,
        (0, 1024),
        vec![RebuildJobRequest::Op(RebuildOperation::Stop)],
    );
    b.run();
    assert_eq!(b.state(), RebuildState::Stopped);
    assert_eq!(b.states.error, None);
    assert_eq!(b.task_pool.segments_done, 0);
}

#[test]
fn stats_queries_are_answered_in_order() {
    let mut b = backend(
        1024,
        (0, 1024),
        vec![
            RebuildJobRequest::GetStats,
            RebuildJobRequest::WakeUp,
            RebuildJobRequest::Op(RebuildOperation::Start),
        ],
    );
    b.run();
    assert_eq!(b.state(), RebuildState::Completed);
    assert_eq!(b.stats_replies.len(), 1);
    assert_eq!(b.stats_replies[0].blocks_recovered, 0);
    assert_eq!(b.stats_replies[0].progress, 0);
}

#[test]
fn notifications_follow_state_changes() {
    let mut b = backend(64, (0, 64), vec![RebuildJobRequest::Op(RebuildOperation::Start)]);
    b.run();
    assert_eq!(
        b.notifications,
        vec![RebuildState::Running, RebuildState::Completed]
    );
}

#[test]
fn resume_after_pause_finishes_the_rebuild() {
    let mut b = backend(
        1024,
        (0, 1024),
        vec![
            RebuildJobRequest::Op(RebuildOperation::Start),
            RebuildJobRequest::Op(RebuildOperation::Pause),
            RebuildJobRequest::Op(RebuildOperation::Resume),
        ],
    );
    // The pause and resume are both drained before the copy phase; the
    // last request wins and the rebuild runs to completion.
    b.run();
    assert_eq!(b.state(), RebuildState::Completed);
    assert_eq!(b.dst_store.data, b.src_store.data);
}

#[test]
fn rebuild_map_is_installed_only_once() {
    let mut log1 = IOLog::new("dst".to_string(), 64, 4096);
    log1.log_io(0, 1);
    let mut b = backend(64, (0, 64), vec![]);
    assert!(b.set_rebuild_map(log1.finalize()));
    let log2 = IOLog::new("dst".to_string(), 64, 4096);
    assert!(!b.set_rebuild_map(log2.finalize()));
    assert_eq!(b.stats().blocks_remaining, 16);
}

#[test]
fn mismatched_map_is_rejected() {
    // A map on a different grid (block size 512 gives 128 blocks per
    // segment) does not fit a job whose segments hold 16 blocks.
    let log = IOLog::new("dst".to_string(), 64, 512);
    let mut b = backend(64, (0, 64), vec![]);
    assert!(!b.set_rebuild_map(log.finalize()));
    assert!(!b.stats().is_partial);
}

#[test]
fn partial_rebuild_map_installed_over_the_channel() {
    // The same partial rebuild, with the map installed by a queued
    // request rather than up front.
    let mut log = IOLog::new("dst".to_string(), 1024, 4096);
    log.log_io(48, 16);
    log.log_io(112, 16);
    let mut b = backend(
        1024,
        (0, 1024),
        vec![
            RebuildJobRequest::SetRebuildMap(log.finalize()),
            RebuildJobRequest::Op(RebuildOperation::Start),
        ],
    );
    b.run();
    assert_eq!(b.state(), RebuildState::Completed);
    let s = b.stats();
    assert_eq!(s.blocks_transferred, 32);
    assert_eq!(s.blocks_recovered, 1024);
    assert!(s.is_partial);
}
