use bleeps::buffer::{BufferPool, PoolError};
use bleeps::schedule::{PlaybackScheduler, MARGIN_FRAMES, SAMPLE_RATE};

fn batch(len: usize, value: i16) -> Vec<i16> {
    vec![value; len]
}

#[test]
fn three_batches_back_to_back() {
    let mut pool: BufferPool<i16> = BufferPool::new();
    let mut sched = PlaybackScheduler::new(SAMPLE_RATE, MARGIN_FRAMES);
    let clock0: u64 = 2 * 48_000;
    let a = sched.submit(&mut pool, batch(4_800, 1), clock0);
    let b = sched.submit(&mut pool, batch(4_800, 2), clock0 + 10);
    let c = sched.submit(&mut pool, batch(4_800, 3), clock0 + 20);
    assert_eq!(a.play_at, clock0 + 1_500);
    assert_eq!(b.play_at, a.play_at + 4_800);
    assert_eq!(c.play_at, b.play_at + 4_800);
    assert_eq!(sched.scheduled_until(), c.play_at + 4_800);
    // 1 500 frames at 48 000 Hz is 0.03125 s; 4 800 frames is 0.1 s.
    assert_eq!(MARGIN_FRAMES * 100_000 / SAMPLE_RATE as u64, 3_125);
    assert_eq!(4_800u64 * 10 / SAMPLE_RATE as u64, 1);
    assert_eq!(a.lead, 4_800);
    assert_eq!(c.lead, 3 * 4_800 - 20);
    // The clock has passed the empty schedule at the first submission only.
    assert!(a.underrun && !b.underrun && !c.underrun);
}

#[test]
fn schedule_end_never_moves_back() {
    let mut pool: BufferPool<i16> = BufferPool::new();
    let mut sched = PlaybackScheduler::new(48_000, 1_500);
    let clocks: Vec<u64> = vec![0, 0, 100, 50_000, 50_001, 200_000, 200_010];
    let mut last = sched.scheduled_until();
    for (i, now) in clocks.iter().enumerate() {
        let s = sched.submit(&mut pool, batch(100 + i * 37, 0), *now);
        assert!(sched.scheduled_until() >= last);
        last = sched.scheduled_until();
        pool.release(s.buffer).unwrap();
    }
}

#[test]
fn consecutive_batches_do_not_overlap() {
    let mut pool: BufferPool<i16> = BufferPool::new();
    let mut sched = PlaybackScheduler::new(48_000, 1_500);
    let first = sched.submit(&mut pool, batch(2_000, 0), 1_000);
    let second = sched.submit(&mut pool, batch(700, 0), 1_200);
    assert!(second.play_at >= first.play_at + 2_000);
    assert_eq!(second.play_at, first.play_at + 2_000);
}

#[test]
fn schedule_keeps_latency_margin() {
    let mut pool: BufferPool<i16> = BufferPool::new();
    let mut sched = PlaybackScheduler::new(48_000, 4_800);
    for now in [0u64, 10, 20_000, 20_001, 90_000] {
        sched.submit(&mut pool, batch(480, 0), now);
        assert!(sched.scheduled_until() - now >= sched.margin_frames());
    }
}

#[test]
fn stall_resets_schedule_to_now_plus_margin() {
    let mut pool: BufferPool<i16> = BufferPool::new();
    let mut sched = PlaybackScheduler::new(48_000, 1_500);
    let a = sched.submit(&mut pool, batch(4_800, 0), 0);
    assert_eq!(a.play_at, 1_500);
    let stalled: u64 = 10 * 48_000;
    let b = sched.submit(&mut pool, batch(4_800, 0), stalled);
    assert!(b.underrun);
    assert_eq!(b.play_at, stalled + 1_500);
    assert_eq!(b.lead, 4_800);
}

#[test]
fn submit_writes_samples_into_buffer() {
    let mut pool: BufferPool<i16> = BufferPool::new();
    let mut sched = PlaybackScheduler::new(48_000, 1_500);
    let s = sched.submit(&mut pool, vec![3, -4, 5], 7);
    assert_eq!(s.buffer.samples(), &vec![3, -4, 5]);
    assert_eq!(s.buffer.capacity(), 3);
    assert_eq!(s.play_at, 1_507);
    assert_eq!(sched.sample_rate(), 48_000);
}

#[test]
fn sequential_pairs_reuse_one_buffer() {
    let mut pool: BufferPool<i16> = BufferPool::new();
    let mut sched = PlaybackScheduler::new(48_000, 1_500);
    let mut handles = Vec::new();
    for i in 0..10u64 {
        let s = sched.submit(&mut pool, batch(4_800, 0), i * 4_800);
        handles.push(s.buffer.handle());
        pool.release(s.buffer).unwrap();
    }
    assert_eq!(pool.created_count(), 1);
    assert!(handles.iter().all(|h| *h == 0));
}

#[test]
fn lent_buffers_are_never_handed_out_twice() {
    let mut pool: BufferPool<i16> = BufferPool::new();
    let a = pool.acquire(4);
    let b = pool.acquire(4);
    assert_ne!(a.handle(), b.handle());
    assert_eq!(pool.created_count(), 2);
    pool.release(a).unwrap();
    let c = pool.acquire(4);
    assert_ne!(c.handle(), b.handle());
    assert_eq!(pool.created_count(), 2);
}

#[test]
fn acquire_reuses_last_released_of_matching_capacity() {
    let mut pool: BufferPool<u8> = BufferPool::new();
    let a = pool.acquire(8);
    let b = pool.acquire(8);
    let c = pool.acquire(16);
    let (ha, hb, hc) = (a.handle(), b.handle(), c.handle());
    pool.release(a).unwrap();
    pool.release(c).unwrap();
    pool.release(b).unwrap();
    assert_eq!(pool.free_count(), 3);
    assert_eq!(pool.acquire(8).handle(), hb);
    assert_eq!(pool.acquire(8).handle(), ha);
    assert_eq!(pool.acquire(16).handle(), hc);
    let fresh = pool.acquire(8);
    assert_eq!(fresh.handle(), 3);
    assert_eq!(fresh.capacity(), 8);
    assert!(fresh.samples().is_empty());
    assert_eq!(pool.created_count(), 4);
}

#[test]
fn double_release_is_refused() {
    let mut pool: BufferPool<i16> = BufferPool::new();
    let a = pool.acquire(2);
    pool.release(a).unwrap();
    let again = pool.acquire(2);
    let handle = again.handle();
    pool.release(again).unwrap();
    let mut other: BufferPool<i16> = BufferPool::new();
    let twin = other.acquire(2);
    assert_eq!(twin.handle(), handle);
    assert_eq!(pool.release(twin), Err(PoolError::DoubleRelease));
    assert_eq!(pool.free_count(), 1);
    assert_eq!(pool.created_count(), 1);
}

#[test]
fn foreign_buffer_is_refused() {
    let mut pool: BufferPool<i16> = BufferPool::new();
    let mut other: BufferPool<i16> = BufferPool::new();
    let _x = other.acquire(2);
    let y = other.acquire(2);
    assert_eq!(pool.release(y), Err(PoolError::ForeignBuffer));
    assert_eq!(pool.free_count(), 0);
}

#[test]
fn write_replaces_channel_data() {
    let mut pool: BufferPool<i16> = BufferPool::new();
    let mut b = pool.acquire(4);
    b.write(vec![1, 2, 3, 4]);
    assert_eq!(b.samples(), &vec![1, 2, 3, 4]);
    b.write(vec![9]);
    assert_eq!(b.samples(), &vec![9]);
    assert_eq!(b.capacity(), 4);
}
