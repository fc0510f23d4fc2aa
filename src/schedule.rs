use vstd::prelude::*;

use crate::buffer::{acquired, AudioBuffer, BufferPool};

verus! {

/// Frames per second of the output device in the reference configuration.
pub const SAMPLE_RATE: u32 = 48_000;

/// Default lead, in frames, reserved between a submission and its playback.
pub const MARGIN_FRAMES: u64 = 1_500;

/// Where a batch submitted at device time `now` starts: right after what is
/// already scheduled, but never sooner than `margin` frames from now.
pub open spec fn start_at(until: u64, margin: u64, now: u64) -> int {
    vstd::math::max(now + margin, until as int)
}

/// The end of the schedule after a batch of `len` frames submitted at `now`.
pub open spec fn until_after(until: u64, margin: u64, now: u64, len: nat) -> int {
    start_at(until, margin, now) + len
}

/// One playback that the output device is asked to start.
///
/// All times are positions of the device clock counted in frames.
pub struct Submission<T> {
    /// The buffer to play; it goes back to the pool when playback completes.
    pub buffer: AudioBuffer<T>,
    /// Device time at which playback starts.
    pub play_at: u64,
    /// How far the schedule now reaches beyond the earliest allowed start.
    pub lead: u64,
    /// The device clock had already passed the end of the schedule.
    pub underrun: bool,
}

/// Turns sample batches into gapless, non-overlapping playback start times.
///
/// Time is the device clock in frames at `sample_rate` frames per second; a
/// batch of `n` samples lasts `n` frames.
pub struct PlaybackScheduler {
    sample_rate: u32,
    margin: u64,
    scheduled_until: u64,
}

impl PlaybackScheduler {
    pub closed spec fn rate(&self) -> u32 {
        self.sample_rate
    }

    /// Minimum lead, in frames, between a submission and its start.
    pub closed spec fn latency_margin(&self) -> u64 {
        self.margin
    }

    /// Device time at which everything scheduled so far has finished.
    pub closed spec fn until(&self) -> u64 {
        self.scheduled_until
    }

    /// A scheduler with nothing scheduled yet.
    pub fn new(sample_rate: u32, margin_frames: u64) -> (r: PlaybackScheduler)
        ensures
            r.rate() == sample_rate,
            r.latency_margin() == margin_frames,
            r.until() == 0,
    {
        PlaybackScheduler { sample_rate, margin: margin_frames, scheduled_until: 0 }
    }

    pub fn sample_rate(&self) -> (r: u32)
        ensures
            r == self.rate(),
    {
        self.sample_rate
    }

    pub fn margin_frames(&self) -> (r: u64)
        ensures
            r == self.latency_margin(),
    {
        self.margin
    }

    pub fn scheduled_until(&self) -> (r: u64)
        ensures
            r == self.until(),
    {
        self.scheduled_until
    }

    /// Schedules `samples` to play at device time `now` or later.
    ///
    /// A buffer of exactly `samples.len()` frames is taken from `pool` and
    /// filled. Playback starts at `start_at(until, margin, now)`: directly
    /// after what was scheduled before, or, once the device clock has caught
    /// up with the schedule, `margin` frames from now. The schedule then ends
    /// where the batch ends.
    pub fn submit<T>(&mut self, pool: &mut BufferPool<T>, samples: Vec<T>, now: u64) -> (r:
        Submission<T>)
        requires
            old(pool).wf(),
            old(pool).created() < u64::MAX,
            now + old(self).latency_margin() + samples@.len() <= u64::MAX,
            old(self).until() + samples@.len() <= u64::MAX,
        ensures
            final(pool).wf(),
            acquired(*old(pool), *final(pool), samples@.len() as usize, r.buffer),
            r.buffer.data() == samples@,
            r.play_at == start_at(old(self).until(), old(self).latency_margin(), now),
            final(self).until() == r.play_at + samples@.len(),
            final(self).rate() == old(self).rate(),
            final(self).latency_margin() == old(self).latency_margin(),
            r.lead == final(self).until() - (now + old(self).latency_margin()),
            r.underrun == (now > old(self).until()),
            final(self).until() >= old(self).until(),
            r.play_at >= old(self).until(),
            final(self).until() >= now + final(self).latency_margin(),
            now + old(self).latency_margin() > old(self).until() ==> r.play_at == now
                + old(self).latency_margin(),
    {
        let len: usize = samples.len();
        let mut buffer = pool.acquire(len);
        buffer.write(samples);
        let earliest: u64 = now + self.margin;
        let play_at: u64 = if earliest > self.scheduled_until {
            earliest
        } else {
            self.scheduled_until
        };
        let underrun = now > self.scheduled_until;
        self.scheduled_until = play_at + len as u64;
        let lead: u64 = self.scheduled_until - earliest;
        Submission { buffer, play_at, lead, underrun }
    }
}

/// Two batches submitted one after the other never overlap: the second
/// starts no sooner than the first one ends, whatever the device clock reads
/// at either submission.
pub proof fn lemma_no_overlap(until: u64, margin: u64, now1: u64, len1: nat, now2: u64)
    requires
        until_after(until, margin, now1, len1) <= u64::MAX,
    ensures
        ({
            let until1 = until_after(until, margin, now1, len1) as u64;
            start_at(until1, margin, now2) >= start_at(until, margin, now1) + len1
        }),
{
}

/// Submissions never move the end of the schedule backwards.
pub proof fn lemma_monotonic(until: u64, margin: u64, now: u64, len: nat)
    ensures
        until_after(until, margin, now, len) >= until,
{
}

/// Right after a submission the schedule reaches at least `margin` frames
/// beyond the device clock.
pub proof fn lemma_latency_floor(until: u64, margin: u64, now: u64, len: nat)
    ensures
        until_after(until, margin, now, len) - now >= margin,
{
}

/// After a stall that let the device clock run past the schedule, the next
/// batch starts `margin` frames from now, not at the stale end of the
/// schedule.
pub proof fn lemma_underrun_recovery(until: u64, margin: u64, now: u64)
    requires
        now > until,
    ensures
        start_at(until, margin, now) == now + margin,
{
}

} // verus!
