use copper_core::pool::HostMemoryPool;
use copper_core::stream::{
    ignorable_on_drop, poll_outcome, CuV4LStream, FrameMetadata, StreamError,
};

#[test]
fn pool_runs_dry_and_recovers() {
    let mut pool = HostMemoryPool::new(4096, 4, 4096);
    assert_eq!(pool.capacity(), 4);
    assert_eq!(pool.buf_size(), 4096);
    assert_eq!(pool.alignment(), 4096);
    assert_eq!(pool.free_count(), 4);
    let a = pool.allocate().unwrap();
    let b = pool.allocate().unwrap();
    let c = pool.allocate().unwrap();
    let d = pool.allocate().unwrap();
    assert_eq!(
        (a.index(), b.index(), c.index(), d.index()),
        (0, 1, 2, 3)
    );
    assert!(pool.allocate().is_none());
    assert_eq!(pool.outstanding(), 4);
    assert_eq!(pool.free_count(), 0);
    pool.release(b);
    assert_eq!(pool.outstanding() + pool.free_count(), 4);
    let again = pool.allocate().unwrap();
    assert_eq!(again.index(), 1);
    assert!(pool.allocate().is_none());
    pool.release(a);
    pool.release(c);
    pool.release(d);
    pool.release(again);
    assert_eq!(pool.free_count(), 4);
    assert_eq!(pool.outstanding(), 0);
}

#[test]
fn buffer_is_free_after_its_last_handle() {
    let mut pool = HostMemoryPool::new(16, 2, 8);
    let a = pool.allocate().unwrap();
    let a2 = pool.retain(&a);
    assert_eq!(pool.handles_on(0), 2);
    assert_eq!(pool.outstanding(), 1);
    pool.release(a);
    assert_eq!(pool.handles_on(0), 1);
    assert_eq!(pool.outstanding(), 1);
    assert_eq!(pool.free_count(), 1);
    pool.release(a2);
    assert_eq!(pool.handles_on(0), 0);
    assert_eq!(pool.outstanding(), 0);
    assert_eq!(pool.free_count(), 2);
    // the buffer that came back last goes out first
    assert_eq!(pool.allocate().unwrap().index(), 0);
}

#[test]
fn empty_pool_hands_out_nothing() {
    let mut pool = HostMemoryPool::new(16, 0, 8);
    assert!(pool.allocate().is_none());
    assert_eq!(pool.outstanding(), 0);
}

#[test]
fn stream_has_one_buffer_more_than_slots() {
    let stream = CuV4LStream::new(1024, 4096);
    assert_eq!(stream.slot_count(), 4);
    assert_eq!(stream.pool().capacity(), 5);
    assert_eq!(stream.pool().buf_size(), 1024);
    assert_eq!(stream.pool().alignment(), 4096);
    assert!(!stream.is_active());
    assert_eq!(stream.poll_timeout(), -1);
    let stream = CuV4LStream::with_buffers(1024, 2, 4096);
    assert_eq!(stream.slot_count(), 2);
    assert_eq!(stream.pool().capacity(), 3);
}

#[test]
fn stream_timeout_is_polled_in_milliseconds() {
    let mut stream = CuV4LStream::new(1024, 4096);
    stream.set_timeout(250);
    assert_eq!(stream.poll_timeout(), 250);
    stream.set_timeout(i32::MAX as u128);
    assert_eq!(stream.poll_timeout(), i32::MAX);
    stream.clear_timeout();
    assert_eq!(stream.poll_timeout(), -1);
    assert_eq!(poll_outcome(0), Err(StreamError::TimedOut));
    assert_eq!(poll_outcome(1), Ok(()));
    assert_eq!(poll_outcome(-1), Ok(()));
}

#[test]
fn stream_cycles_through_its_buffers() {
    let mut stream = CuV4LStream::with_buffers(64, 2, 8);
    assert_eq!(stream.next_to_queue(), Err(StreamError::NotActive));
    // start: all slots but the first are queued
    let h = stream.queue_prepare().unwrap();
    assert_eq!(h.index(), 0);
    stream.queue_commit(1, h);
    stream.started();
    assert!(stream.is_active());
    assert_eq!(stream.next_to_queue(), Ok(0));
    // next: queue the slot that was freed last, then take what the device filled
    let h = stream.queue_prepare().unwrap();
    assert_eq!(h.index(), 1);
    stream.queue_commit(0, h);
    let meta = FrameMetadata {
        bytesused: 48,
        flags: 1,
        field: 0,
        timestamp_sec: 10,
        timestamp_usec: 500,
        sequence: 7,
    };
    stream.dequeued(1, meta);
    assert_eq!(stream.take_frame(1), (0, meta));
    assert_eq!(stream.next_to_queue(), Ok(1));
    assert_eq!(stream.pool().outstanding(), 2);
    // next: the slot 1 gets the third buffer, its old buffer goes back to the pool
    let h = stream.queue_prepare().unwrap();
    assert_eq!(h.index(), 2);
    stream.queue_commit(1, h);
    assert_eq!(stream.pool().outstanding(), 2);
    assert_eq!(stream.pool().free_count(), 1);
    stream.dequeued(0, FrameMetadata::empty());
    assert_eq!(stream.take_frame(0), (1, FrameMetadata::empty()));
    // a buffer that the device refuses goes back
    let h = stream.queue_prepare().unwrap();
    assert_eq!(h.index(), 0);
    assert_eq!(stream.pool().free_count(), 0);
    assert_eq!(stream.queue_prepare(), Err(StreamError::PoolExhausted));
    stream.queue_abort(h);
    assert_eq!(stream.pool().free_count(), 1);
    stream.stopped();
    assert!(!stream.is_active());
    assert_eq!(stream.next_to_queue(), Err(StreamError::NotActive));
}

#[test]
fn only_a_missing_device_is_passed_over() {
    assert!(ignorable_on_drop(Some(19)));
    assert!(!ignorable_on_drop(Some(5)));
    assert!(!ignorable_on_drop(None));
}
