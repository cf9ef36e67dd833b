//! Jitter buffer and audio sources.
//!
//! Input: PCM blocks from the network (mono, i16, any rate). Output: samples at the device's rate,
//! copied to all its channels.
//!
//! Structure:
//! - `pending`: input samples at the input rate, waiting for a full resampler block.
//! - The resampler works outside, on one block at a time, and gives back finished samples.
//! - `queue`: finished samples at the output rate, the actual jitter buffer. A sample is held by
//!   the bit pattern of its `f32`; silence is the pattern zero.
//!
//! Rules:
//! - Target buffer `target_ms`. Before it is reached silence is played, never stretched.
//! - Above `max_ms` the oldest samples are dropped (latency must not grow).
//! - Adaptive: after an underrun or packet loss the target grows (up to 200 ms); after 30 s without
//!   trouble it shrinks step by step back to the start value.
//!
//! Points in time are nanoseconds on a clock that never goes back.

use vstd::prelude::*;
use std::collections::VecDeque;
use crate::limit;
use crate::ordered::{self, Real};

verus! {

/// Input samples per resampler block (10 ms at 48 kHz).
pub const CHUNK: usize = 480;

/// Upper bound of the adaptive target buffer: the pattern of 200.0 ms.
pub const TARGET_MAX_MS: u64 = 0x4069_0000_0000_0000;

/// The pattern of 1.0.
pub const ONE: u64 = 0x3ff0_0000_0000_0000;

/// Quiet time without trouble after which the target shrinks again: 30 s in nanoseconds.
pub const CALM_AFTER: u64 = 30_000_000_000;

/// The pattern of 0.995, the lowest relative resampling ratio.
pub const RATIO_MIN: u64 = 0x3fef_d70a_3d70_a3d7;

/// The pattern of 1.005, the highest relative resampling ratio.
pub const RATIO_MAX: u64 = 0x3ff0_147a_e147_ae14;

/// The input rate before any is set.
pub const INITIAL_RATE: u32 = 48_000;

/// Running counters, for /api/stats.
#[derive(Debug, Clone, Copy, PartialEq, Eq, Structural, Default)]
pub struct Stats {
    pub frames_received: u64,
    pub samples_received: u64,
    pub underruns: u64,
    pub dropped_samples: u64,
    pub buffered_ms: Real,
    pub target_ms: Real,
    pub ratio: Real,
    pub input_rate: u32,
    pub output_rate: u32,
}

/// What the target buffer becomes with each adjustment, computed from the current target.
#[derive(Debug, Clone, Copy, PartialEq, Eq, Structural)]
pub struct Steps {
    /// After the loss of one packet: 10 ms more.
    pub lost_one: Real,
    /// After the loss of two packets: 20 ms more.
    pub lost_two: Real,
    /// After the loss of three or more packets: 30 ms more.
    pub lost_more: Real,
    /// After an underrun: half of it, but at least 10 ms, more.
    pub dry: Real,
    /// After a calm time: four fifths of it.
    pub calm: Real,
}

/// An underrun: when it happened and what the target was before.
#[derive(Debug, Clone, Copy, PartialEq, Eq, Structural)]
pub struct Underrun {
    pub at: u64,
    pub target_before: Real,
}

/// Jitter buffer: what is played, when silence is, and how much is kept in store.
#[derive(Debug)]
pub struct JitterBuffer {
    pending: Vec<i16>,
    queue: VecDeque<u32>,
    input_rate: u32,
    output_rate: u32,
    base_target_ms: Real,
    target_ms: Real,
    max_ms: Real,
    stats: Stats,
    primed: bool,
    last_trouble: Option<u64>,
    last_shrink: u64,
    last_push: Option<u64>,
    /// If the source ends normally, the last underrun was just the buffer running dry and is taken
    /// back on disconnect.
    last_underrun: Option<Underrun>,
}

/// What a jitter buffer holds.
pub struct JitterView {
    pub pending: Seq<i16>,
    pub queue: Seq<u32>,
    pub input_rate: u32,
    pub output_rate: u32,
    pub base: Real,
    pub target: Real,
    pub max: Real,
    pub stats: Stats,
    pub primed: bool,
    pub last_trouble: Option<u64>,
    pub last_shrink: u64,
    pub last_push: Option<u64>,
    pub last_underrun: Option<Underrun>,
}

impl View for JitterBuffer {
    type V = JitterView;

    closed spec fn view(&self) -> JitterView {
        JitterView {
            pending: self.pending@,
            queue: self.queue@,
            input_rate: self.input_rate,
            output_rate: self.output_rate,
            base: self.base_target_ms,
            target: self.target_ms,
            max: self.max_ms,
            stats: self.stats,
            primed: self.primed,
            last_trouble: self.last_trouble,
            last_shrink: self.last_shrink,
            last_push: self.last_push,
            last_underrun: self.last_underrun,
        }
    }
}

/// A rate within the limits of the resampler.
pub open spec fn clamped_rate(rate: u32) -> u32 {
    if rate < 8_000 {
        8_000
    } else if rate > 192_000 {
        192_000
    } else {
        rate
    }
}

impl JitterView {
    /// An empty buffer.
    pub open spec fn empty(output_rate: u32, target: Real, max: Real, now: u64) -> JitterView {
        JitterView {
            pending: Seq::empty(),
            queue: Seq::empty(),
            input_rate: INITIAL_RATE,
            output_rate,
            base: target,
            target,
            max,
            stats: Stats {
                frames_received: 0,
                samples_received: 0,
                underruns: 0,
                dropped_samples: 0,
                buffered_ms: Real(0),
                target_ms: target,
                ratio: Real(ONE),
                input_rate: INITIAL_RATE,
                output_rate,
            },
            primed: false,
            last_trouble: None,
            last_shrink: now,
            last_push: None,
            last_underrun: None,
        }
    }

    /// The most the target grows to: 200 ms, or the start value if that is more.
    pub open spec fn ceiling(self) -> Real {
        ordered::larger(Real(TARGET_MAX_MS), self.base)
    }

    /// The same buffer with another target.
    pub open spec fn with_target(self, t: Real) -> JitterView {
        JitterView { target: t, stats: Stats { target_ms: t, ..self.stats }, ..self }
    }

    /// Trouble: the target becomes `raised`, up to the ceiling.
    pub open spec fn grown(self, raised: Real, now: u64) -> JitterView {
        JitterView {
            last_trouble: Some(now),
            last_shrink: now,
            ..self.with_target(ordered::smaller(raised, self.ceiling()))
        }
    }

    /// The target after the loss of so many packets.
    pub open spec fn after_loss(self, packets: u64, steps: Steps) -> Real {
        if packets == 0 {
            self.target
        } else if packets == 1 {
            steps.lost_one
        } else if packets == 2 {
            steps.lost_two
        } else {
            steps.lost_more
        }
    }

    /// The buffer ran dry.
    pub open spec fn run_dry(self, steps: Steps, now: u64) -> JitterView {
        JitterView {
            stats: Stats {
                underruns: limit::counted(self.stats.underruns, 1) as u64,
                ..self.stats
            },
            primed: false,
            last_underrun: Some(Underrun { at: now, target_before: self.target }),
            ..self
        }.grown(steps.dry, now)
    }

    /// Whether the target is to shrink: it is above the start value, and neither trouble nor
    /// shrinking has happened for `CALM_AFTER`.
    pub open spec fn shrink_due(self, now: u64) -> bool {
        &&& !ordered::le(self.target, self.base)
        &&& (self.last_trouble is Some ==> limit::elapsed(self.last_trouble->0, now) >= CALM_AFTER)
        &&& limit::elapsed(self.last_shrink, now) >= CALM_AFTER
    }

    /// The target after a calm time: down to the start value at most.
    pub open spec fn calmed(self, steps: Steps, now: u64) -> JitterView {
        if self.shrink_due(now) {
            JitterView {
                last_shrink: now,
                ..self.with_target(ordered::larger(steps.calm, self.base))
            }
        } else {
            self
        }
    }

    /// A block of input has arrived.
    pub open spec fn received(self, samples: Seq<i16>, steps: Steps, now: u64) -> JitterView {
        JitterView {
            pending: self.pending + samples,
            stats: Stats {
                frames_received: limit::counted(self.stats.frames_received, 1) as u64,
                samples_received: limit::counted(
                    self.stats.samples_received,
                    samples.len() as int,
                ) as u64,
                ..self.stats
            },
            last_push: Some(now),
            ..self
        }.calmed(steps, now)
    }

    /// The oldest full block of input is taken.
    pub open spec fn taken(self) -> JitterView {
        JitterView { pending: self.pending.skip(CHUNK as int), ..self }
    }

    /// Finished samples are appended.
    pub open spec fn queued(self, samples: Seq<u32>) -> JitterView {
        JitterView { queue: self.queue + samples, ..self }
    }

    /// The ratio that the counters show.
    pub open spec fn with_ratio(self, ratio: Real) -> JitterView {
        JitterView { stats: Stats { ratio, ..self.stats }, ..self }
    }

    /// One block after the other is taken, and what the resampler makes of it is appended.
    pub open spec fn resampled(self, made: Seq<Seq<u32>>) -> JitterView
        decreases made.len(),
    {
        if made.len() == 0 {
            self
        } else {
            self.resampled(made.drop_last()).taken().queued(made.last())
        }
    }

    /// One whole push: a block arrives, every full resampler block is taken and what is made of it
    /// appended, then the store is settled.
    pub open spec fn pushed(
        self,
        samples: Seq<i16>,
        steps: Steps,
        now: u64,
        ratio: Real,
        made: Seq<Seq<u32>>,
        max_samples: nat,
        target_samples: nat,
    ) -> JitterView {
        self.received(samples, steps, now).with_ratio(ratio).resampled(made).settled(
            max_samples,
            target_samples,
        )
    }

    /// How many of the oldest samples are too many.
    pub open spec fn excess(self, max_samples: nat) -> int {
        if self.queue.len() > max_samples {
            self.queue.len() - max_samples
        } else {
            0
        }
    }

    /// The oldest samples beyond `max_samples` are dropped; with `target_samples` in store playing
    /// begins.
    pub open spec fn settled(self, max_samples: nat, target_samples: nat) -> JitterView {
        let queue = self.queue.skip(self.excess(max_samples));
        JitterView {
            queue,
            stats: Stats {
                dropped_samples: limit::counted(
                    self.stats.dropped_samples,
                    self.excess(max_samples),
                ) as u64,
                ..self.stats
            },
            primed: self.primed || queue.len() >= target_samples,
            ..self
        }
    }

    /// How many frames are played out of `frames` that are asked for.
    pub open spec fn played(self, frames: int) -> int {
        if !self.primed {
            0
        } else if frames <= self.queue.len() {
            frames
        } else {
            self.queue.len() as int
        }
    }

    /// Whether playing stops for lack of samples.
    pub open spec fn runs_dry(self, frames: int) -> bool {
        self.primed && (self.queue.len() == 0 || frames > self.queue.len())
    }

    /// The buffer after `frames` were asked for.
    pub open spec fn pulled(self, frames: int, buffered: Real, steps: Steps, now: u64) -> JitterView {
        let s = JitterView {
            queue: self.queue.skip(self.played(frames)),
            stats: Stats { buffered_ms: buffered, ..self.stats },
            ..self
        };
        if self.runs_dry(frames) {
            s.run_dry(steps, now)
        } else {
            s
        }
    }

    /// Whether the last underrun came after the last block of input.
    pub open spec fn ended_dry(self) -> bool {
        self.last_underrun is Some && self.last_push is Some && self.last_underrun->0.at
            >= self.last_push->0
    }

    /// The source has disconnected normally.
    pub open spec fn disconnected(self) -> JitterView {
        let s = if self.ended_dry() {
            let before = self.last_underrun->0.target_before;
            JitterView {
                stats: Stats {
                    underruns: if self.stats.underruns > 0 {
                        (self.stats.underruns - 1) as u64
                    } else {
                        0
                    },
                    target_ms: before,
                    ..self.stats
                },
                target: before,
                last_trouble: None,
                ..self
            }
        } else {
            self
        };
        JitterView {
            pending: Seq::empty(),
            queue: Seq::empty(),
            stats: Stats { buffered_ms: Real(0), ..s.stats },
            primed: false,
            last_underrun: None,
            ..s
        }
    }

    /// Another input rate: what waits at the old rate is useless.
    pub open spec fn with_rate(self, rate: u32) -> JitterView {
        if clamped_rate(rate) == self.input_rate {
            self
        } else {
            JitterView {
                input_rate: clamped_rate(rate),
                stats: Stats { input_rate: clamped_rate(rate), ..self.stats },
                pending: Seq::empty(),
                ..self
            }
        }
    }
}

/// What a device asked for with `len` interleaved samples gets at position `i`: the played samples,
/// each copied to all channels; silence where the buffer is not primed or has run dry; `before`
/// where an incomplete last frame is left alone.
pub open spec fn output_at(
    v: JitterView,
    before: Seq<u32>,
    channels: int,
    i: int,
) -> u32 {
    let frames = before.len() as int / channels;
    if i < v.played(frames) * channels {
        v.queue[i / channels]
    } else if !v.primed || v.runs_dry(frames) {
        0
    } else {
        before[i]
    }
}

/// The relative resampling ratio that is used where `raw` is wanted: within half a percent of one.
pub open spec fn limited_ratio(raw: Real) -> Real {
    if ordered::is_nan(raw) {
        raw
    } else if !ordered::le(Real(RATIO_MIN), raw) {
        Real(RATIO_MIN)
    } else if !ordered::le(raw, Real(RATIO_MAX)) {
        Real(RATIO_MAX)
    } else {
        raw
    }
}

/// Limits the relative resampling ratio to within half a percent of one, so that it stays inaudible.
pub fn limit_ratio(raw: Real) -> (r: Real)
    ensures
        r == limited_ratio(raw),
        !ordered::is_nan(raw) ==> ordered::le(Real(RATIO_MIN), r) && ordered::le(
            r,
            Real(RATIO_MAX),
        ),
{
    if raw.nan() {
        raw
    } else if !Real(RATIO_MIN).at_most(raw) {
        Real(RATIO_MIN)
    } else if !raw.at_most(Real(RATIO_MAX)) {
        Real(RATIO_MAX)
    } else {
        raw
    }
}

impl JitterBuffer {
    /// An empty buffer for an output device, with the target and the maximum in ms.
    pub fn new(output_rate: u32, target_ms: Real, max_ms: Real, now: u64) -> (r: Self)
        ensures
            r@ == JitterView::empty(output_rate, target_ms, max_ms, now),
    {
        JitterBuffer {
            pending: Vec::new(),
            queue: VecDeque::new(),
            input_rate: INITIAL_RATE,
            output_rate,
            base_target_ms: target_ms,
            target_ms,
            max_ms,
            stats: Stats {
                frames_received: 0,
                samples_received: 0,
                underruns: 0,
                dropped_samples: 0,
                buffered_ms: Real(0),
                target_ms,
                ratio: Real(ONE),
                input_rate: INITIAL_RATE,
                output_rate,
            },
            primed: false,
            last_trouble: None,
            last_shrink: now,
            last_push: None,
            last_underrun: None,
        }
    }

    /// The source disconnected normally: clear the buffer, and if the last underrun was just the
    /// buffer running dry after the last packet, it does not count as trouble.
    pub fn source_disconnected(&mut self)
        ensures
            final(self)@ == old(self)@.disconnected(),
            final(self)@.queue.len() == 0,
            final(self)@.pending.len() == 0,
            !final(self)@.primed,
            final(self)@.stats.buffered_ms == Real(0),
            final(self)@.last_underrun is None,
    {
        if let (Some(dry), Some(t_push)) = (self.last_underrun, self.last_push) {
            if dry.at >= t_push {
                if self.stats.underruns > 0 {
                    self.stats.underruns = self.stats.underruns - 1;
                }
                self.target_ms = dry.target_before;
                self.stats.target_ms = dry.target_before;
                self.last_trouble = None;
            }
        }
        self.last_underrun = None;
        self.queue.clear();
        self.pending.clear();
        self.primed = false;
        self.stats.buffered_ms = Real(0);
    }

    /// Sets the input rate, within 8 to 192 kHz. If it changes, the resampler has to be rebuilt.
    pub fn set_input_rate(&mut self, rate: u32) -> (changed: bool)
        ensures
            final(self)@ == old(self)@.with_rate(rate),
            changed == (clamped_rate(rate) != old(self)@.input_rate),
    {
        let rate = if rate < 8_000 {
            8_000
        } else if rate > 192_000 {
            192_000
        } else {
            rate
        };
        if rate != self.input_rate {
            self.input_rate = rate;
            self.stats.input_rate = rate;
            self.pending.clear();
            true
        } else {
            false
        }
    }

    /// Trouble from outside (e.g. RTP packet loss): raise the target buffer slightly.
    pub fn note_loss(&mut self, packets: u64, steps: &Steps, now: u64)
        ensures
            final(self)@ == old(self)@.grown(old(self)@.after_loss(packets, *steps), now),
    {
        let raised = if packets == 0 {
            self.target_ms
        } else if packets == 1 {
            steps.lost_one
        } else if packets == 2 {
            steps.lost_two
        } else {
            steps.lost_more
        };
        self.grow_target(raised, now);
    }

    /// Raises the target, up to its ceiling.
    fn grow_target(&mut self, raised: Real, now: u64)
        ensures
            final(self)@ == old(self)@.grown(raised, now),
    {
        let ceiling = Real(TARGET_MAX_MS).larger_of(self.base_target_ms);
        self.target_ms = raised.smaller_of(ceiling);
        self.stats.target_ms = self.target_ms;
        self.last_trouble = Some(now);
        self.last_shrink = now;
    }

    /// Lowers the target after a calm time.
    fn maybe_shrink_target(&mut self, steps: &Steps, now: u64)
        ensures
            final(self)@ == old(self)@.calmed(*steps, now),
    {
        if self.target_ms.at_most(self.base_target_ms) {
            return;
        }
        let calm = match self.last_trouble {
            Some(t) => limit::time_since(t, now) >= CALM_AFTER,
            None => true,
        };
        if calm && limit::time_since(self.last_shrink, now) >= CALM_AFTER {
            self.target_ms = steps.calm.larger_of(self.base_target_ms);
            self.stats.target_ms = self.target_ms;
            self.last_shrink = now;
        }
    }

    /// Takes mono i16. Afterwards the blocks of `next_chunk` are resampled one by one and given back
    /// with `queue_samples`; `settle` ends the push.
    pub fn push_i16(&mut self, samples: &[i16], steps: &Steps, now: u64)
        ensures
            final(self)@ == old(self)@.received(samples@, *steps, now),
    {
        self.stats.frames_received = limit::count_up(self.stats.frames_received, 1);
        self.stats.samples_received = limit::count_up(
            self.stats.samples_received,
            samples.len() as u64,
        );
        self.last_push = Some(now);
        self.pending.extend_from_slice(samples);
        assert(self.pending@ =~= old(self)@.pending + samples@);
        self.maybe_shrink_target(steps, now);
    }

    /// Takes the oldest full block of input, if there is one.
    pub fn next_chunk(&mut self) -> (r: Option<Vec<i16>>)
        ensures
            match r {
                Some(block) => {
                    &&& old(self)@.pending.len() >= CHUNK
                    &&& block@ == old(self)@.pending.take(CHUNK as int)
                    &&& final(self)@ == old(self)@.taken()
                },
                None => old(self)@.pending.len() < CHUNK && final(self)@ == old(self)@,
            },
    {
        if self.pending.len() < CHUNK {
            return None;
        }
        let mut block = self.pending.split_off(CHUNK);
        std::mem::swap(&mut self.pending, &mut block);
        assert(block@ =~= old(self)@.pending.take(CHUNK as int));
        assert(self.pending@ =~= old(self)@.pending.skip(CHUNK as int));
        Some(block)
    }

    /// Appends finished samples.
    pub fn queue_samples(&mut self, samples: &[u32])
        ensures
            final(self)@ == old(self)@.queued(samples@),
    {
        let ghost before = self@;
        for i in 0..samples.len()
            invariant
                self@ == (JitterView { queue: before.queue + samples@.take(i as int), ..before }),
        {
            self.queue.push_back(samples[i]);
            assert(before.queue + samples@.take(i + 1) =~= (before.queue + samples@.take(
                i as int,
            )).push(samples@[i as int]));
        }
        assert(samples@.take(samples@.len() as int) =~= samples@);
    }

    /// Ends a push: drops the oldest samples beyond `max_samples`, and begins playing once
    /// `target_samples` are in store.
    pub fn settle(&mut self, max_samples: usize, target_samples: usize)
        ensures
            final(self)@ == old(self)@.settled(max_samples as nat, target_samples as nat),
    {
        let ghost before = self@;
        if self.queue.len() > max_samples {
            let excess: usize = self.queue.len() - max_samples;
            assert(before.queue.skip(0) =~= before.queue);
            for k in 0..excess
                invariant
                    excess == before.queue.len() - max_samples,
                    max_samples < before.queue.len(),
                    self@ == (JitterView { queue: before.queue.skip(k as int), ..before }),
            {
                let _ = self.queue.pop_front();
                assert(before.queue.skip(k as int).skip(1) =~= before.queue.skip(k + 1));
            }
            self.stats.dropped_samples = limit::count_up(
                self.stats.dropped_samples,
                excess as u64,
            );
        } else {
            assert(before.queue.skip(0) =~= before.queue);
        }
        if !self.primed && self.queue.len() >= target_samples {
            self.primed = true;
        }
    }

    /// The buffer ran dry: one underrun, more headroom next time, prime again.
    fn underrun(&mut self, steps: &Steps, now: u64)
        ensures
            final(self)@ == old(self)@.run_dry(*steps, now),
    {
        self.stats.underruns = limit::count_up(self.stats.underruns, 1);
        self.primed = false;
        self.last_underrun = Some(Underrun { at: now, target_before: self.target_ms });
        self.grow_target(steps.dry, now);
    }

    /// Fills `out` (interleaved, `channels` channels) at the output rate. `buffered` is the buffered
    /// time in ms. Runs in the audio callback.
    pub fn pull(
        &mut self,
        out: &mut [u32],
        channels: usize,
        buffered: Real,
        steps: &Steps,
        now: u64,
    )
        ensures
            ({
                let ch = if channels == 0 {
                    1int
                } else {
                    channels as int
                };
                let frames = old(out)@.len() as int / ch;
                &&& final(self)@ == old(self)@.pulled(frames, buffered, *steps, now)
                &&& final(out)@.len() == old(out)@.len()
                &&& forall|i: int|
                    0 <= i < old(out)@.len() ==> #[trigger] final(out)@[i] == output_at(
                        old(self)@,
                        old(out)@,
                        ch,
                        i,
                    )
            }),
    {
        let ghost v = self@;
        let ghost before = out@;
        let per_frame: usize = if channels == 0 {
            1
        } else {
            channels
        };
        let frames: usize = out.len() / per_frame;
        assert(before.len() <= usize::MAX);
        let ghost ch = per_frame as int;
        proof {
            assert(frames * ch <= before.len()) by (nonlinear_arith)
                requires
                    frames == before.len() as int / ch,
                    ch > 0,
            ;
        }
        self.stats.buffered_ms = buffered;
        if !self.primed || self.queue.len() == 0 {
            silence(out, 0);
            if self.primed {
                self.underrun(steps, now);
            }
            proof {
                assert(v.queue.skip(0) =~= v.queue);
                assert(v.played(frames as int) == 0);
                assert(0 * ch == 0);
                assert(v.queue.len() == 0 ==> v.queue.skip(v.played(frames as int)) =~= v.queue);
                if v.primed {
                    assert(v.runs_dry(frames as int));
                }
            }
            return;
        }
        let ghost started = JitterView {
            stats: Stats { buffered_ms: buffered, ..v.stats },
            ..v
        };
        assert(v.queue.skip(0) =~= v.queue);
        let mut f: usize = 0;
        while f < frames
            invariant
                f <= frames,
                v == old(self)@,
                before == old(out)@,
                ch == per_frame,
                ch == (if channels == 0 {
                    1int
                } else {
                    channels as int
                }),
                ch > 0,
                frames == before.len() as int / ch,
                frames * ch <= before.len() <= usize::MAX,
                out@.len() == before.len(),
                f <= v.queue.len(),
                v.primed,
                v.queue.len() > 0,
                started == (JitterView { stats: Stats { buffered_ms: buffered, ..v.stats }, ..v }),
                self@ == (JitterView { queue: v.queue.skip(f as int), ..started }),
                forall|i: int| 0 <= i < f * ch ==> #[trigger] out@[i] == v.queue[i / ch],
                forall|i: int| f * ch <= i < before.len() ==> #[trigger] out@[i] == before[i],
            decreases frames - f,
        {
            let sample = match self.queue.pop_front() {
                Some(s) => s,
                None => {
                    proof {
                        assert(f == v.queue.len());
                        assert(v.played(frames as int) == f);
                        assert(v.runs_dry(frames as int));
                        lemma_frame_bounds(f as int, 0, frames as int, ch);
                    }
                    self.underrun(steps, now);
                    silence(out, f * per_frame);
                    return;
                },
            };
            assert(sample == v.queue[f as int]);
            assert(v.queue.skip(f as int).skip(1) =~= v.queue.skip(f + 1));
            proof {
                lemma_frame_bounds(f as int, 0, frames as int, ch);
            }
            let base: usize = f * per_frame;
            let mut c: usize = 0;
            while c < per_frame
                invariant
                    c <= per_frame,
                    ch == per_frame,
                    base == f * ch,
                    0 <= f < frames,
                    f < v.queue.len(),
                    base + ch <= before.len(),
                    out@.len() == before.len(),
                    before.len() <= usize::MAX,
                    sample == v.queue[f as int],
                    forall|i: int| 0 <= i < f * ch ==> #[trigger] out@[i] == v.queue[i / ch],
                    forall|i: int| base <= i < base + c ==> #[trigger] out@[i] == sample,
                    forall|i: int| base + c <= i < before.len() ==> #[trigger] out@[i] == before[i],
                decreases per_frame - c,
            {
                out[base + c] = sample;
                c = c + 1;
            }
            proof {
                assert((f + 1) * ch == base + ch) by (nonlinear_arith)
                    requires
                        base == f * ch,
                ;
                assert forall|i: int| 0 <= i < (f + 1) * ch implies #[trigger] out@[i]
                    == v.queue[i / ch] by {
                    if i >= base {
                        assert(i / ch == f) by (nonlinear_arith)
                            requires
                                f * ch <= i < f * ch + ch,
                                ch > 0,
                        ;
                    }
                }
            }
            f = f + 1;
        }
        proof {
            assert(v.played(frames as int) == frames);
            assert(!v.runs_dry(frames as int));
        }
    }

    /// The running counters.
    pub fn stats(&self) -> (r: Stats)
        ensures
            r == self@.stats,
    {
        self.stats
    }

    /// Sets the resampling ratio that is shown in the counters.
    pub fn set_ratio(&mut self, ratio: Real)
        ensures
            final(self)@ == old(self)@.with_ratio(ratio),
    {
        self.stats.ratio = ratio;
    }

    /// The target buffer before any adjustment.
    pub fn base_target_ms(&self) -> (r: Real)
        ensures
            r == self@.base,
    {
        self.base_target_ms
    }

    /// The current target buffer.
    pub fn target_ms(&self) -> (r: Real)
        ensures
            r == self@.target,
    {
        self.target_ms
    }

    /// The most that is kept in store.
    pub fn max_ms(&self) -> (r: Real)
        ensures
            r == self@.max,
    {
        self.max_ms
    }

    /// Input samples that wait for a full block, and finished samples in store.
    pub fn buffered(&self) -> (r: (usize, usize))
        ensures
            r.0 == self@.pending.len(),
            r.1 == self@.queue.len(),
    {
        (self.pending.len(), self.queue.len())
    }
}

/// A channel of a frame lies within the output.
proof fn lemma_frame_bounds(f: int, c: int, frames: int, ch: int)
    requires
        0 <= f < frames,
        0 <= c < ch,
    ensures
        0 <= f * ch,
        f * ch + c < frames * ch,
        f * ch + ch <= frames * ch,
{
    assert(0 <= f * ch) by (nonlinear_arith)
        requires
            0 <= f,
            0 < ch,
    ;
    assert(f * ch + ch <= frames * ch) by (nonlinear_arith)
        requires
            f < frames,
            0 < ch,
    ;
}

/// Silence from position `from` on.
fn silence(out: &mut [u32], from: usize)
    requires
        from <= old(out)@.len(),
    ensures
        final(out)@.len() == old(out)@.len(),
        forall|i: int| 0 <= i < from ==> #[trigger] final(out)@[i] == old(out)@[i],
        forall|i: int| from <= i < old(out)@.len() ==> #[trigger] final(out)@[i] == 0,
{
    let ghost before = out@;
    let mut i: usize = from;
    while i < out.len()
        invariant
            from <= i <= out@.len(),
            out@.len() == before.len(),
            forall|j: int| 0 <= j < from ==> #[trigger] out@[j] == before[j],
            forall|j: int| from <= j < i ==> #[trigger] out@[j] == 0,
        decreases out@.len() - i,
    {
        out[i] = 0;
        i = i + 1;
    }
}

// ---------------------------------------------------------------------------------------------
// Sources
// ---------------------------------------------------------------------------------------------

/// Decides which connection may play into the jitter buffer. The id of the active connection
/// (0 = none) is shared by all of them; `id` is our own.
#[derive(Debug, Clone, Copy, PartialEq, Eq, Structural)]
pub struct SourceGate {
    id: u64,
}

impl SourceGate {
    /// The connection's id.
    pub closed spec fn spec_id(self) -> u64 {
        self.id
    }

    /// A source gate for connection `id`; 0 means no source.
    pub fn new(id: u64) -> (r: Self)
        requires
            id != 0,
        ensures
            r.spec_id() == id,
    {
        SourceGate { id }
    }

    /// The connection's id.
    pub fn id(&self) -> (r: u64)
        ensures
            r == self.spec_id(),
    {
        self.id
    }

    /// This connection starts sending and becomes the active source (the newest wins). Returns the
    /// other source that it takes over from, if there was one.
    pub fn take_over(&self, active: &mut u64) -> (r: Option<u64>)
        ensures
            *final(active) == self.spec_id(),
            r == (if *old(active) != 0 && *old(active) != self.spec_id() {
                Some(*old(active))
            } else {
                None
            }),
    {
        let prev = *active;
        *active = self.id;
        if prev != 0 && prev != self.id {
            Some(prev)
        } else {
            None
        }
    }

    /// May this connection play right now? If nobody is active, it becomes active.
    pub fn allowed(&self, active: &mut u64) -> (r: bool)
        ensures
            *final(active) == may_play(self.spec_id(), *old(active)),
            r == (*final(active) == self.spec_id()),
    {
        if *active == 0 {
            *active = self.id;
        }
        *active == self.id
    }

    /// The connection ends. Returns true if it was the active source (then none is active now).
    pub fn release(&self, active: &mut u64) -> (r: bool)
        ensures
            r == (*old(active) == self.spec_id()),
            *final(active) == released(self.spec_id(), *old(active)),
    {
        if *active == self.id {
            *active = 0;
            true
        } else {
            false
        }
    }

    /// Whether this connection is the active source.
    pub fn is_active(&self, active: u64) -> (r: bool)
        ensures
            r == (active == self.spec_id()),
    {
        active == self.id
    }
}

/// The active source after connection `id` has asked to play.
pub open spec fn may_play(id: u64, active: u64) -> u64 {
    if active == 0 {
        id
    } else {
        active
    }
}

/// The active source after connection `id` has ended.
pub open spec fn released(id: u64, active: u64) -> u64 {
    if active == id {
        0
    } else {
        active
    }
}

// ---------------------------------------------------------------------------------------------
// Laws
// ---------------------------------------------------------------------------------------------

/// Only one source plays at a time: while one may play, no other may, and asking changes nothing.
pub proof fn one_source_at_a_time(a: u64, b: u64, active: u64)
    requires
        a != b,
        a != 0,
        b != 0,
        may_play(a, active) == a,
    ensures
        may_play(b, may_play(a, active)) == a,
        may_play(b, may_play(a, active)) != b,
{
}

/// The newest sender wins: after `a` has taken over, it may play and no other connection may, until
/// it ends; a connection that is not active ends without any effect.
pub proof fn newest_sender_wins(a: u64, b: u64)
    requires
        a != b,
        a != 0,
        b != 0,
    ensures
        may_play(a, a) == a,
        may_play(b, a) != b,
        released(b, a) == a,
{
}

/// When the active source ends, the next one that sends plays.
pub proof fn next_sender_continues(a: u64, b: u64)
    requires
        a != 0,
        b != 0,
    ensures
        released(a, a) == 0,
        may_play(b, released(a, a)) == b,
{
}

/// Whether adjusted targets are what their names say: raised ones not below the current target, the
/// lowered one not above it, and all of them numbers.
pub open spec fn steps_in_order(target: Real, steps: Steps) -> bool {
    &&& ordered::le(target, steps.lost_one)
    &&& ordered::le(target, steps.lost_two)
    &&& ordered::le(target, steps.lost_more)
    &&& ordered::le(target, steps.dry)
    &&& ordered::le(steps.calm, target)
}

/// Whether the target lies between the start value and the ceiling, and the counters show it.
pub open spec fn target_in_range(v: JitterView) -> bool {
    &&& ordered::le(v.base, v.target)
    &&& ordered::le(v.target, v.ceiling())
    &&& v.stats.target_ms == v.target
    &&& v.last_underrun is Some ==> {
        &&& ordered::le(v.base, v.last_underrun->0.target_before)
        &&& ordered::le(v.last_underrun->0.target_before, v.ceiling())
    }
}

/// A new buffer's target is in range.
pub proof fn new_target_is_in_range(output_rate: u32, target: Real, max: Real, now: u64)
    requires
        !ordered::is_nan(target),
    ensures
        target_in_range(JitterView::empty(output_rate, target, max, now)),
{
}

/// Whatever happens to the buffer, the target stays between the start value and 200 ms (or the
/// start value, if that is more).
pub proof fn target_stays_in_range(
    v: JitterView,
    steps: Steps,
    samples: Seq<i16>,
    packets: u64,
    frames: int,
    buffered: Real,
    now: u64,
    rate: u32,
    max_samples: nat,
    target_samples: nat,
)
    requires
        target_in_range(v),
        steps_in_order(v.target, steps),
    ensures
        target_in_range(v.received(samples, steps, now)),
        target_in_range(v.grown(v.after_loss(packets, steps), now)),
        target_in_range(v.pulled(frames, buffered, steps, now)),
        target_in_range(v.disconnected()),
        target_in_range(v.with_rate(rate)),
        target_in_range(v.settled(max_samples, target_samples)),
{
}

/// Trouble never lowers the target, and calm never raises it.
pub proof fn trouble_raises_and_calm_lowers(
    v: JitterView,
    steps: Steps,
    packets: u64,
    now: u64,
)
    requires
        target_in_range(v),
        steps_in_order(v.target, steps),
    ensures
        ordered::le(v.target, v.grown(v.after_loss(packets, steps), now).target),
        ordered::le(v.target, v.run_dry(steps, now).target),
        ordered::le(v.calmed(steps, now).target, v.target),
{
}

/// The target shrinks only after 30 s without an underrun, a loss or another shrinking, and never
/// once it is back at the start value.
pub proof fn shrinks_only_after_calm(v: JitterView, steps: Steps, now: u64)
    requires
        v.calmed(steps, now) != v,
    ensures
        !ordered::le(v.target, v.base),
        limit::elapsed(v.last_shrink, now) >= CALM_AFTER,
        v.last_trouble is Some ==> limit::elapsed(v.last_trouble->0, now) >= CALM_AFTER,
        !v.calmed(steps, now).shrink_due(now),
{
}

/// Latency does not grow without bound: after a push at most `max_samples` are in store, they are
/// the newest ones, and every sample that is gone is counted.
pub proof fn store_is_bounded(v: JitterView, max_samples: nat, target_samples: nat)
    ensures
        ({
            let s = v.settled(max_samples, target_samples);
            &&& s.queue.len() <= max_samples
            &&& s.queue == v.queue.skip(v.queue.len() - s.queue.len())
            &&& s.stats.dropped_samples == limit::counted(
                v.stats.dropped_samples,
                v.queue.len() - s.queue.len(),
            )
        }),
{
    let s = v.settled(max_samples, target_samples);
    assert(v.queue.skip(v.queue.len() - s.queue.len()) =~= s.queue);
}

/// The samples of all blocks in a row.
pub open spec fn joined(made: Seq<Seq<u32>>) -> Seq<u32>
    decreases made.len(),
{
    if made.len() == 0 {
        seq![]
    } else {
        joined(made.drop_last()) + made.last()
    }
}

/// Taking blocks and appending what is made of them changes nothing else.
proof fn lemma_resampled(v: JitterView, made: Seq<Seq<u32>>)
    requires
        CHUNK * made.len() <= v.pending.len(),
    ensures
        v.resampled(made) == (JitterView {
            pending: v.pending.skip(CHUNK * made.len()),
            queue: v.queue + joined(made),
            ..v
        }),
    decreases made.len(),
{
    if made.len() == 0 {
        assert(v.pending.skip(0) =~= v.pending);
        assert(v.queue + joined(made) =~= v.queue);
    } else {
        let init = made.drop_last();
        lemma_resampled(v, init);
        assert(v.pending.skip(CHUNK * init.len()).skip(CHUNK as int) =~= v.pending.skip(
            CHUNK * made.len(),
        ));
        assert(v.queue + joined(init) + made.last() =~= v.queue + joined(made));
    }
}

/// The law of one whole push. Let `made` be what the resampler makes of the full blocks, one after
/// the other. Then the store holds the newest part of what it held before followed by what was made,
/// as much of it as `max_samples` allow; every sample that is gone is counted; less than one block of
/// input still waits, the newest; and the `k`-th block that the resampler is given is the `k`-th one
/// of the input that waited before followed by the new one.
pub proof fn a_push_keeps_the_newest(
    v: JitterView,
    samples: Seq<i16>,
    steps: Steps,
    now: u64,
    ratio: Real,
    made: Seq<Seq<u32>>,
    max_samples: nat,
    target_samples: nat,
)
    requires
        made.len() == (v.pending.len() + samples.len()) / CHUNK as nat,
    ensures
        ({
            let end = v.pushed(samples, steps, now, ratio, made, max_samples, target_samples);
            let all = v.queue + joined(made);
            let excess: int = if all.len() > max_samples {
                all.len() - max_samples
            } else {
                0
            };
            &&& end.queue == all.skip(excess)
            &&& end.queue.len() == if all.len() < max_samples {
                all.len()
            } else {
                max_samples
            }
            &&& end.stats.dropped_samples == limit::counted(v.stats.dropped_samples, excess)
            &&& end.pending.len() < CHUNK
            &&& end.pending == (v.pending + samples).skip(CHUNK * made.len())
            &&& end.primed == (v.primed || end.queue.len() >= target_samples)
            &&& end.stats.ratio == ratio
            &&& end.stats.frames_received == limit::counted(v.stats.frames_received, 1)
            &&& end.stats.samples_received == limit::counted(
                v.stats.samples_received,
                samples.len() as int,
            )
            &&& end.last_push == Some(now)
        }),
        forall|k: int|
            0 <= k < made.len() ==> {
                let at = #[trigger] v.received(samples, steps, now).with_ratio(ratio).resampled(
                    made.take(k),
                );
                &&& at.pending.len() >= CHUNK
                &&& at.pending.take(CHUNK as int) == (v.pending + samples).subrange(
                    CHUNK * k,
                    CHUNK * k + CHUNK,
                )
            },
{
    let begun = v.received(samples, steps, now).with_ratio(ratio);
    assert(begun.pending == v.pending + samples);
    assert(begun.queue == v.queue);
    lemma_resampled(begun, made);
    assert forall|k: int| 0 <= k < made.len() implies {
        let at = #[trigger] begun.resampled(made.take(k));
        &&& at.pending.len() >= CHUNK
        &&& at.pending.take(CHUNK as int) == (v.pending + samples).subrange(
            CHUNK * k,
            CHUNK * k + CHUNK,
        )
    } by {
        lemma_resampled(begun, made.take(k));
        assert(begun.pending.skip(CHUNK * k).take(CHUNK as int) =~= begun.pending.subrange(
            CHUNK * k,
            CHUNK * k + CHUNK,
        ));
    }
}

/// Only silence is played before the buffer is primed.
pub proof fn silence_until_primed(v: JitterView, before: Seq<u32>, channels: int, i: int)
    requires
        !v.primed,
        channels > 0,
        0 <= i < before.len(),
    ensures
        output_at(v, before, channels, i) == 0,
{
    assert(0 * channels == 0);
}

/// Mono is copied to all channels: within a frame every channel gets the same sample, as long as
/// the frame is complete.
pub proof fn mono_is_copied_to_all_channels(
    v: JitterView,
    before: Seq<u32>,
    channels: int,
    f: int,
    c: int,
)
    requires
        channels > 0,
        0 <= f < before.len() as int / channels,
        0 <= c < channels,
    ensures
        f * channels + c < before.len(),
        output_at(v, before, channels, f * channels + c) == output_at(
            v,
            before,
            channels,
            f * channels,
        ),
        output_at(v, before, channels, f * channels) == (if f < v.played(
            before.len() as int / channels,
        ) {
            v.queue[f]
        } else {
            0
        }),
{
    let frames = before.len() as int / channels;
    let n = v.played(frames);
    lemma_frame_bounds(f, c, frames, channels);
    assert(frames * channels <= before.len()) by (nonlinear_arith)
        requires
            frames == before.len() as int / channels,
            channels > 0,
    ;
    let i = f * channels + c;
    assert(i / channels == f && (f * channels) / channels == f) by (nonlinear_arith)
        requires
            i == f * channels + c,
            0 <= c < channels,
    ;
    if f < n {
        lemma_frame_bounds(f, c, n, channels);
    } else {
        assert(n * channels <= f * channels) by (nonlinear_arith)
            requires
                n <= f,
                channels > 0,
        ;
    }
}

/// Running dry after the last packet does not count: if the buffer runs dry after the last block
/// and the source then disconnects, the underrun, the raised target and the trouble are taken back.
pub proof fn tail_underrun_is_forgiven(
    v: JitterView,
    frames: int,
    buffered: Real,
    steps: Steps,
    now: u64,
)
    requires
        v.last_push is Some,
        v.last_push->0 <= now,
        v.runs_dry(frames),
        v.stats.underruns < u64::MAX,
    ensures
        ({
            let end = v.pulled(frames, buffered, steps, now).disconnected();
            &&& end.stats.underruns == v.stats.underruns
            &&& end.target == v.target
            &&& end.stats.target_ms == v.target
            &&& end.last_trouble is None
            &&& end.queue.len() == 0
            &&& end.pending.len() == 0
            &&& end.stats.buffered_ms == Real(0)
            &&& !end.primed
        }),
{
}

/// An underrun while the source keeps sending stays counted when it disconnects.
pub proof fn earlier_underrun_stays_counted(v: JitterView)
    requires
        v.last_underrun is Some,
        v.last_push is Some,
        v.last_underrun->0.at < v.last_push->0,
    ensures
        v.disconnected().stats.underruns == v.stats.underruns,
        v.disconnected().target == v.target,
        v.disconnected().last_trouble == v.last_trouble,
{
}

/// The input rate is always within 8 to 192 kHz once it was set.
pub proof fn input_rate_is_clamped(v: JitterView, rate: u32)
    ensures
        v.with_rate(rate).input_rate == clamped_rate(rate),
        8_000 <= v.with_rate(rate).input_rate <= 192_000,
        v.with_rate(rate).with_rate(rate) == v.with_rate(rate),
{
}

/// Disconnecting clears the buffer, whether or not it ever ran dry: nothing is in store, no input
/// waits, playing has to begin anew, no buffered time is shown and no underrun is remembered.
pub proof fn disconnecting_clears_the_buffer(v: JitterView)
    ensures
        v.disconnected().queue.len() == 0,
        v.disconnected().pending.len() == 0,
        !v.disconnected().primed,
        v.disconnected().stats.buffered_ms == Real(0),
        v.disconnected().last_underrun is None,
{
}

/// Disconnecting leaves alone how the buffer is set up and what has been counted. Only an underrun
/// after the last block is taken back, with the target it raised and the trouble it was.
pub proof fn disconnecting_keeps_the_rest(v: JitterView)
    ensures
        ({
            let w = v.disconnected();
            &&& w.input_rate == v.input_rate
            &&& w.output_rate == v.output_rate
            &&& w.base == v.base
            &&& w.max == v.max
            &&& w.last_push == v.last_push
            &&& w.last_shrink == v.last_shrink
            &&& w.stats.frames_received == v.stats.frames_received
            &&& w.stats.samples_received == v.stats.samples_received
            &&& w.stats.dropped_samples == v.stats.dropped_samples
            &&& w.stats.ratio == v.stats.ratio
            &&& w.stats.input_rate == v.stats.input_rate
            &&& w.stats.output_rate == v.stats.output_rate
            &&& (v.last_underrun is None || v.last_push is None || v.last_underrun->0.at
                < v.last_push->0) ==> {
                &&& w.target == v.target
                &&& w.stats.target_ms == v.stats.target_ms
                &&& w.stats.underruns == v.stats.underruns
                &&& w.last_trouble == v.last_trouble
            }
            &&& (v.last_underrun is Some && v.last_push is Some && v.last_underrun->0.at
                >= v.last_push->0) ==> {
                &&& w.target == v.last_underrun->0.target_before
                &&& w.stats.target_ms == v.last_underrun->0.target_before
                &&& v.stats.underruns > 0 ==> w.stats.underruns == v.stats.underruns - 1
                &&& v.stats.underruns == 0 ==> w.stats.underruns == 0
                &&& w.last_trouble is None
            }
        }),
{
}

/// One time that frames are asked for: how many, and what is handed in with them.
pub struct Pull {
    pub frames: int,
    pub buffered: Real,
    pub steps: Steps,
    pub now: u64,
}

/// The buffer after frames were asked for again and again.
pub open spec fn after_pulls(v: JitterView, pulls: Seq<Pull>) -> JitterView
    decreases pulls.len(),
{
    if pulls.len() == 0 {
        v
    } else {
        let p = pulls.last();
        after_pulls(v, pulls.drop_last()).pulled(p.frames, p.buffered, p.steps, p.now)
    }
}

/// A buffer that is not primed stays as it is however often frames are asked for: nothing is taken,
/// no underrun is counted, the target is not raised, and only the buffered time is shown anew.
pub proof fn waiting_changes_nothing(v: JitterView, pulls: Seq<Pull>)
    requires
        !v.primed,
    ensures
        ({
            let w = after_pulls(v, pulls);
            &&& !w.primed
            &&& w.queue == v.queue
            &&& w.pending == v.pending
            &&& w.target == v.target
            &&& w.stats.underruns == v.stats.underruns
            &&& w.stats.target_ms == v.stats.target_ms
            &&& w.last_trouble == v.last_trouble
            &&& w.last_shrink == v.last_shrink
            &&& w.last_underrun == v.last_underrun
            &&& pulls.len() > 0 ==> w.stats.buffered_ms == pulls.last().buffered
        }),
    decreases pulls.len(),
{
    if pulls.len() > 0 {
        waiting_changes_nothing(v, pulls.drop_last());
        let w = after_pulls(v, pulls.drop_last());
        assert(w.queue.skip(0) =~= w.queue);
    }
}

/// After a disconnect only silence is played until something is pushed again, however often frames
/// are asked for, and none of that counts as an underrun.
pub proof fn a_disconnect_is_followed_by_silence(
    v: JitterView,
    pulls: Seq<Pull>,
    before: Seq<u32>,
    channels: int,
    i: int,
)
    requires
        channels > 0,
        0 <= i < before.len(),
    ensures
        output_at(after_pulls(v.disconnected(), pulls), before, channels, i) == 0,
        after_pulls(v.disconnected(), pulls).stats.underruns == v.disconnected().stats.underruns,
        after_pulls(v.disconnected(), pulls).stats.underruns <= v.stats.underruns,
{
    waiting_changes_nothing(v.disconnected(), pulls);
    silence_until_primed(after_pulls(v.disconnected(), pulls), before, channels, i);
}

/// Every sample is played once, the oldest first: while playing, the `f`-th frame is the `f`-th sample
/// in store as long as there is one and silence afterwards, and what was played is gone from the
/// store, nothing else.
pub proof fn samples_are_played_in_order(
    v: JitterView,
    before: Seq<u32>,
    channels: int,
    f: int,
    buffered: Real,
    steps: Steps,
    now: u64,
)
    requires
        v.primed,
        channels > 0,
        0 <= f < before.len() as int / channels,
    ensures
        f < v.queue.len() ==> output_at(v, before, channels, f * channels) == v.queue[f],
        f >= v.queue.len() ==> output_at(v, before, channels, f * channels) == 0,
        ({
            let frames = before.len() as int / channels;
            let n = if frames <= v.queue.len() {
                frames
            } else {
                v.queue.len() as int
            };
            v.pulled(frames, buffered, steps, now).queue == v.queue.skip(n)
        }),
{
    mono_is_copied_to_all_channels(v, before, channels, f, 0);
}

/// An underrun is counted exactly when playing asks for more than is in store, or nothing is. Then
/// playing has to begin anew, the target becomes what follows an underrun, up to its ceiling, and the
/// underrun is remembered with its time and the target before. Otherwise nothing of that changes.
pub proof fn underruns_are_counted(
    v: JitterView,
    frames: int,
    buffered: Real,
    steps: Steps,
    now: u64,
)
    ensures
        ({
            let w = v.pulled(frames, buffered, steps, now);
            let dry = v.primed && (v.queue.len() == 0 || v.queue.len() < frames);
            &&& w.stats.buffered_ms == buffered
            &&& w.pending == v.pending
            &&& w.stats.frames_received == v.stats.frames_received
            &&& w.stats.samples_received == v.stats.samples_received
            &&& w.stats.dropped_samples == v.stats.dropped_samples
            &&& w.base == v.base
            &&& w.max == v.max
            &&& w.last_push == v.last_push
            &&& !dry ==> {
                &&& w.stats.underruns == v.stats.underruns
                &&& w.primed == v.primed
                &&& w.target == v.target
                &&& w.last_trouble == v.last_trouble
                &&& w.last_shrink == v.last_shrink
                &&& w.last_underrun == v.last_underrun
            }
            &&& dry ==> {
                &&& w.stats.underruns == limit::counted(v.stats.underruns, 1)
                &&& !w.primed
                &&& w.last_trouble == Some(now)
                &&& w.last_shrink == now
                &&& w.last_underrun == Some(Underrun { at: now, target_before: v.target })
                &&& w.target == w.stats.target_ms
                &&& ordered::le(steps.dry, Real(0x4069_0000_0000_0000)) ==> w.target == steps.dry
                &&& ordered::le(steps.dry, v.base) ==> w.target == steps.dry
                &&& (!ordered::is_nan(steps.dry) && !ordered::le(
                    steps.dry,
                    Real(0x4069_0000_0000_0000),
                ) && ordered::le(v.base, Real(0x4069_0000_0000_0000))) ==> w.target == Real(
                    0x4069_0000_0000_0000,
                )
                &&& (!ordered::is_nan(steps.dry) && !ordered::le(steps.dry, v.base) && !ordered::is_nan(
                    v.base,
                ) && !ordered::le(v.base, Real(0x4069_0000_0000_0000))) ==> w.target == v.base
            }
        }),
{
}

/// A loss raises the target by its size: to what follows one, two or more lost packets, but not above
/// 200 ms unless the start value is; no packet lost leaves a target in range alone. Nothing but the
/// target and the time of the trouble changes.
pub proof fn losses_raise_the_target(v: JitterView, packets: u64, steps: Steps, now: u64)
    ensures
        ({
            let w = v.grown(v.after_loss(packets, steps), now);
            let raised = if packets == 0 {
                v.target
            } else if packets == 1 {
                steps.lost_one
            } else if packets == 2 {
                steps.lost_two
            } else {
                steps.lost_more
            };
            &&& ordered::le(raised, Real(0x4069_0000_0000_0000)) ==> w.target == raised
            &&& ordered::le(raised, v.base) ==> w.target == raised
            &&& (!ordered::is_nan(raised) && !ordered::le(raised, Real(0x4069_0000_0000_0000))
                && ordered::le(v.base, Real(0x4069_0000_0000_0000))) ==> w.target == Real(
                0x4069_0000_0000_0000,
            )
            &&& (!ordered::is_nan(raised) && !ordered::le(raised, v.base) && !ordered::is_nan(v.base)
                && !ordered::le(v.base, Real(0x4069_0000_0000_0000))) ==> w.target == v.base
            &&& w.stats == (Stats { target_ms: w.target, ..v.stats })
            &&& w.last_trouble == Some(now)
            &&& w.last_shrink == now
            &&& w.queue == v.queue
            &&& w.pending == v.pending
            &&& w.primed == v.primed
            &&& w.last_underrun == v.last_underrun
            &&& w.last_push == v.last_push
            &&& w.base == v.base
            &&& w.max == v.max
        }),
{
}

/// Calm lowers the target: with the first block after 30 s without an underrun, a loss or another
/// lowering, a target above the start value becomes what follows calm, or the start value if that is
/// more. Any other block leaves the target alone.
pub proof fn calm_lowers_the_target(v: JitterView, samples: Seq<i16>, steps: Steps, now: u64)
    requires
        v.last_shrink <= now,
        v.last_trouble is Some ==> v.last_trouble->0 <= now,
        !ordered::is_nan(v.target),
        !ordered::is_nan(v.base),
        !ordered::is_nan(steps.calm),
    ensures
        ({
            let w = v.received(samples, steps, now);
            let above = !ordered::le(v.target, v.base);
            let calm = now - v.last_shrink >= 30_000_000_000 && (v.last_trouble is Some ==> now
                - v.last_trouble->0 >= 30_000_000_000);
            &&& above && calm ==> {
                &&& w.target == if ordered::le(v.base, steps.calm) {
                    steps.calm
                } else {
                    v.base
                }
                &&& w.stats.target_ms == w.target
                &&& w.last_shrink == now
            }
            &&& !(above && calm) ==> {
                &&& w.target == v.target
                &&& w.stats.target_ms == v.stats.target_ms
                &&& w.last_shrink == v.last_shrink
            }
            &&& w.last_trouble == v.last_trouble
            &&& w.last_underrun == v.last_underrun
            &&& w.queue == v.queue
            &&& w.primed == v.primed
            &&& w.stats.underruns == v.stats.underruns
        }),
{
}

/// What arrives is counted by blocks and samples and waits behind what already does; a push never
/// touches underruns or how the buffer is set up.
pub proof fn arrivals_are_counted(
    v: JitterView,
    samples: Seq<i16>,
    steps: Steps,
    now: u64,
    ratio: Real,
    made: Seq<Seq<u32>>,
    max_samples: nat,
    target_samples: nat,
)
    requires
        made.len() == (v.pending.len() + samples.len()) / CHUNK as nat,
        v.stats.frames_received < u64::MAX,
        v.stats.samples_received + samples.len() <= u64::MAX,
    ensures
        v.received(samples, steps, now).pending == v.pending + samples,
        ({
            let w = v.pushed(samples, steps, now, ratio, made, max_samples, target_samples);
            &&& w.stats.frames_received == v.stats.frames_received + 1
            &&& w.stats.samples_received == v.stats.samples_received + samples.len()
            &&& w.stats.underruns == v.stats.underruns
            &&& w.last_underrun == v.last_underrun
            &&& w.last_trouble == v.last_trouble
            &&& w.base == v.base
            &&& w.max == v.max
            &&& w.input_rate == v.input_rate
            &&& w.output_rate == v.output_rate
            &&& w.target == v.received(samples, steps, now).target
            &&& w.last_shrink == v.received(samples, steps, now).last_shrink
            &&& w.stats.target_ms == v.received(samples, steps, now).stats.target_ms
            &&& w.stats.buffered_ms == v.stats.buffered_ms
        }),
{
    a_push_keeps_the_newest(v, samples, steps, now, ratio, made, max_samples, target_samples);
    lemma_resampled(v.received(samples, steps, now).with_ratio(ratio), made);
}

/// The resampler works on blocks of 480 samples, and playing begins with exactly as many samples in
/// store as the target asks for.
pub proof fn playing_begins_at_the_target(v: JitterView, max_samples: nat, target_samples: nat)
    requires
        !v.primed,
        v.queue.len() <= max_samples,
    ensures
        v.pending.len() >= 480 ==> v.taken().pending.len() == v.pending.len() - 480,
        v.settled(max_samples, target_samples).primed <==> v.queue.len() >= target_samples,
        v.settled(max_samples, target_samples).queue == v.queue,
        v.settled(max_samples, target_samples).stats.dropped_samples == v.stats.dropped_samples,
{
    assert(v.queue.skip(0) =~= v.queue);
}

/// A new buffer is empty and silent, aims at the target it was made with and has counted nothing.
pub proof fn a_new_buffer_is_empty(output_rate: u32, target: Real, max: Real, now: u64)
    ensures
        ({
            let v = JitterView::empty(output_rate, target, max, now);
            &&& v.queue.len() == 0
            &&& v.pending.len() == 0
            &&& !v.primed
            &&& v.base == target
            &&& v.target == target
            &&& v.stats.target_ms == target
            &&& v.max == max
            &&& v.output_rate == output_rate
            &&& v.stats.output_rate == output_rate
            &&& v.input_rate == 48_000
            &&& v.stats.input_rate == 48_000
            &&& v.stats.ratio == Real(0x3ff0_0000_0000_0000)
            &&& v.stats.buffered_ms == Real(0)
            &&& v.stats.underruns == 0
            &&& v.stats.dropped_samples == 0
            &&& v.stats.frames_received == 0
            &&& v.stats.samples_received == 0
            &&& v.last_trouble is None
            &&& v.last_push is None
            &&& v.last_underrun is None
            &&& v.last_shrink == now
        }),
{
}

/// An input rate between 8 and 192 kHz is taken as it is, any other by the nearest of the two. If it
/// changes, the input that waits at the old rate is dropped; what is in store stays, and so does
/// everything if it does not change.
pub proof fn rates_in_range_are_taken(v: JitterView, rate: u32)
    ensures
        8_000 <= rate <= 192_000 ==> v.with_rate(rate).input_rate == rate,
        rate < 8_000 ==> v.with_rate(rate).input_rate == 8_000,
        rate > 192_000 ==> v.with_rate(rate).input_rate == 192_000,
        v.with_rate(rate).input_rate == v.input_rate ==> v.with_rate(rate) == v,
        v.with_rate(rate).input_rate != v.input_rate ==> {
            &&& v.with_rate(rate).pending.len() == 0
            &&& v.with_rate(rate).stats == (Stats {
                input_rate: v.with_rate(rate).input_rate,
                ..v.stats
            })
        },
        v.with_rate(rate).queue == v.queue,
        v.with_rate(rate).primed == v.primed,
        v.with_rate(rate).target == v.target,
        v.with_rate(rate).base == v.base,
        v.with_rate(rate).max == v.max,
        v.with_rate(rate).last_push == v.last_push,
        v.with_rate(rate).last_trouble == v.last_trouble,
        v.with_rate(rate).last_underrun == v.last_underrun,
        v.with_rate(rate).last_shrink == v.last_shrink,
{
}

/// A resampling ratio from 0.995 to 1.005 is used as it is, any other by the nearest of the two.
pub proof fn ratios_are_limited(raw: Real)
    requires
        !ordered::is_nan(raw),
    ensures
        ({
            let low = Real(0x3fef_d70a_3d70_a3d7);
            let high = Real(0x3ff0_147a_e147_ae14);
            &&& ordered::le(low, raw) && ordered::le(raw, high) ==> limited_ratio(raw) == raw
            &&& !ordered::le(low, raw) ==> limited_ratio(raw) == low
            &&& !ordered::le(raw, high) ==> limited_ratio(raw) == high
        }),
        limited_ratio(limited_ratio(raw)) == limited_ratio(raw),
{
}

/// Asking to play changes the source only if there is none, and ending only if it is one's own.
pub proof fn the_source_changes_hands(id: u64, active: u64)
    requires
        id != 0,
    ensures
        may_play(id, 0) == id,
        active != 0 ==> may_play(id, active) == active,
        released(id, id) == 0,
        active != id ==> released(id, active) == active,
{
}

/// An incomplete last frame is left alone while playing goes on, and silenced otherwise.
pub proof fn an_incomplete_frame_is_left_alone(
    v: JitterView,
    before: Seq<u32>,
    channels: int,
    i: int,
)
    requires
        channels > 0,
        before.len() as int / channels * channels <= i < before.len(),
    ensures
        v.primed && v.queue.len() > 0 && before.len() as int / channels <= v.queue.len()
            ==> output_at(v, before, channels, i) == before[i],
        !v.primed || v.queue.len() == 0 || before.len() as int / channels > v.queue.len()
            ==> output_at(v, before, channels, i) == 0,
{
    let frames = before.len() as int / channels;
    let n = v.played(frames);
    assert(frames >= 0) by {
        vstd::arithmetic::div_mod::lemma_div_pos_is_pos(before.len() as int, channels);
    }
    assert(n * channels <= frames * channels) by (nonlinear_arith)
        requires
            n <= frames,
            channels > 0,
    ;
}

/// Each step of a push changes only its own part: a block is taken from the front of the input, made
/// samples go behind those in store, the ratio is only shown, and settling only drops and begins
/// playing, which it never ends.
pub proof fn each_step_changes_its_own_part(
    v: JitterView,
    made: Seq<u32>,
    ratio: Real,
    max_samples: nat,
    target_samples: nat,
)
    ensures
        v.taken() == (JitterView { pending: v.pending.skip(480), ..v }),
        v.queued(made) == (JitterView { queue: v.queue + made, ..v }),
        v.with_ratio(ratio) == (JitterView { stats: Stats { ratio, ..v.stats }, ..v }),
        v.primed ==> v.settled(max_samples, target_samples).primed,
        ({
            let w = v.settled(max_samples, target_samples);
            &&& w.pending == v.pending
            &&& w.input_rate == v.input_rate
            &&& w.output_rate == v.output_rate
            &&& w.base == v.base
            &&& w.target == v.target
            &&& w.max == v.max
            &&& w.last_trouble == v.last_trouble
            &&& w.last_shrink == v.last_shrink
            &&& w.last_push == v.last_push
            &&& w.last_underrun == v.last_underrun
            &&& w.stats == (Stats { dropped_samples: w.stats.dropped_samples, ..v.stats })
        }),
{
}

} // verus!
