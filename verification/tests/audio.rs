use couchmic::audio::{
    limit_ratio, JitterBuffer, SourceGate, Steps, CALM_AFTER, CHUNK, RATIO_MAX, RATIO_MIN,
    TARGET_MAX_MS,
};
use couchmic::ordered::Real;
use rubato::audioadapter_buffers::direct::InterleavedSlice;
use rubato::{
    Adjustable, Async, FixedAsync, Resampler, SincInterpolationParameters, SincInterpolationType,
    WindowFunction,
};

fn bits(x: f64) -> Real {
    Real(x.to_bits())
}

fn number(r: Real) -> f64 {
    f64::from_bits(r.0)
}

/// A buffer with the resampler and the arithmetic around it.
struct Player {
    jb: JitterBuffer,
    resampler: Option<Async<f32>>,
    output_rate: u32,
    now: u64,
}

fn make_resampler(input_rate: u32, output_rate: u32) -> Option<Async<f32>> {
    let params = SincInterpolationParameters::new(128, WindowFunction::BlackmanHarris2)
        .oversampling_factor(256)
        .interpolation(SincInterpolationType::Quadratic);
    let ratio = output_rate as f64 / input_rate as f64;
    Async::<f32>::new_sinc(ratio, 1.05, &params, CHUNK, 1, FixedAsync::Input).ok()
}

impl Player {
    fn new(output_rate: u32, target_ms: f64, max_ms: f64) -> Player {
        Player {
            jb: JitterBuffer::new(output_rate, bits(target_ms), bits(max_ms), 0),
            resampler: make_resampler(48_000, output_rate),
            output_rate,
            now: 0,
        }
    }

    fn steps(&self) -> Steps {
        let t = number(self.jb.target_ms());
        Steps {
            lost_one: bits(t + 10.0),
            lost_two: bits(t + 20.0),
            lost_more: bits(t + 30.0),
            dry: bits(t + (t * 0.5).max(10.0)),
            calm: bits(t * 0.8),
        }
    }

    fn tick(&mut self) -> u64 {
        self.now += 1;
        self.now
    }

    fn buffered_ms(&self) -> f64 {
        let (pending, queue) = self.jb.buffered();
        queue as f64 * 1000.0 / self.output_rate as f64
            + pending as f64 * 1000.0 / self.jb.stats().input_rate as f64
    }

    fn set_input_rate(&mut self, rate: u32) {
        if self.jb.set_input_rate(rate) {
            self.resampler = make_resampler(self.jb.stats().input_rate, self.output_rate);
        }
    }

    fn push_i16(&mut self, samples: &[i16]) {
        let now = self.tick();
        let steps = self.steps();
        self.jb.push_i16(samples, &steps, now);
        let err = self.buffered_ms() - number(self.jb.target_ms());
        let rel = number(limit_ratio(bits(1.0 - err * 0.0005)));
        self.jb.set_ratio(bits(1.0 / rel));
        let r = self.resampler.as_mut().unwrap();
        let _ = r.set_resample_ratio_relative(rel, true);
        let mut scratch = vec![0.0f32; r.output_frames_max() + 16];
        while let Some(block) = self.jb.next_chunk() {
            let block: Vec<f32> = block.iter().map(|s| *s as f32 / 32768.0).collect();
            let input = InterleavedSlice::new(&block[..], 1, CHUNK).unwrap();
            let len = scratch.len();
            let mut output = InterleavedSlice::new_mut(&mut scratch[..], 1, len).unwrap();
            let (_, n) = r.process_into_buffer(&input, &mut output, None).unwrap();
            let patterns: Vec<u32> = scratch[..n].iter().map(|s| s.to_bits()).collect();
            self.jb.queue_samples(&patterns);
        }
        let samples_in = |ms: f64| (ms / 1000.0 * self.output_rate as f64) as usize;
        let max = samples_in(number(self.jb.max_ms()));
        let target = samples_in(number(self.jb.target_ms()));
        self.jb.settle(max, target);
    }

    fn pull(&mut self, out: &mut [f32], channels: usize) {
        let now = self.tick();
        let steps = self.steps();
        let buffered = bits(self.buffered_ms());
        let mut patterns: Vec<u32> = out.iter().map(|s| s.to_bits()).collect();
        self.jb.pull(&mut patterns, channels, buffered, &steps, now);
        for (o, b) in out.iter_mut().zip(patterns) {
            *o = f32::from_bits(b);
        }
    }

    fn note_loss(&mut self, packets: u64) {
        let now = self.tick();
        let steps = self.steps();
        self.jb.note_loss(packets, &steps, now);
    }

    fn target(&self) -> f64 {
        number(self.jb.stats().target_ms)
    }
}

#[test]
fn silence_until_primed_then_audio() {
    let mut jb = Player::new(48_000, 20.0, 200.0);
    let mut out = vec![0.0f32; 480 * 2];
    jb.pull(&mut out, 2);
    assert!(out.iter().all(|s| *s == 0.0), "only silence before priming");
    let tone: Vec<i16> = (0..4800)
        .map(|i| ((i % 48) as f32 / 48.0 * 20000.0) as i16)
        .collect();
    jb.push_i16(&tone);
    // The first block contains the resampler delay (silence), so read two callbacks.
    jb.pull(&mut out, 2);
    jb.pull(&mut out, 2);
    assert!(out.iter().any(|s| *s != 0.0), "signal after priming");
    assert_eq!(out[0], out[1], "mono is copied to both channels");
}

#[test]
fn drops_when_over_max() {
    let mut jb = Player::new(48_000, 20.0, 100.0);
    jb.push_i16(&vec![100i16; 48_000]);
    assert!(jb.buffered_ms() <= 100.0 + 0.1, "{}", jb.buffered_ms());
    assert!(jb.jb.stats().dropped_samples > 0);
}

#[test]
fn resamples_44100_to_48000() {
    let mut jb = Player::new(48_000, 10.0, 5000.0);
    jb.set_input_rate(44_100);
    jb.push_i16(&vec![1000i16; 44_100]);
    let before = jb.buffered_ms();
    assert!(
        (before - 1000.0).abs() < 25.0,
        "one second of input gives about one second of output, here {before} ms"
    );
    let mut out = vec![0.0f32; 48_000];
    jb.pull(&mut out, 1);
    assert!(jb.buffered_ms() < 30.0, "rest {} ms", jb.buffered_ms());
    // Sinc resampling of a DC signal stays constant in the middle.
    let mid = out[24_000];
    assert!((mid - 1000.0 / 32768.0).abs() < 0.002, "{mid}");
}

#[test]
fn ratio_stays_inaudible() {
    let mut jb = Player::new(48_000, 20.0, 400.0);
    jb.push_i16(&vec![0i16; 48_000 / 4]);
    let mut out = vec![0.0f32; 480];
    jb.pull(&mut out, 1);
    let r = number(jb.jb.stats().ratio);
    assert!((0.995..=1.0051).contains(&r), "{r}");
}

#[test]
fn tail_underrun_is_forgiven_on_disconnect() {
    let mut jb = Player::new(48_000, 40.0, 500.0);
    jb.push_i16(&vec![0i16; 4800]);
    let mut out = vec![0.0f32; 48_000];
    jb.pull(&mut out, 1); // source is gone, buffer runs dry
    assert_eq!(jb.jb.stats().underruns, 1);
    jb.jb.source_disconnected();
    assert_eq!(
        jb.jb.stats().underruns,
        0,
        "running dry after the end does not count"
    );
    assert_eq!(jb.target(), 40.0);
    assert_eq!(jb.buffered_ms(), 0.0);
}

#[test]
fn source_gate_newest_sender_wins_and_next_takes_over() {
    let mut active = 0u64;
    let ipad = SourceGate::new(1);
    let iphone = SourceGate::new(2);
    // Nobody active: whoever sends first plays.
    assert!(ipad.allowed(&mut active));
    assert!(!iphone.allowed(&mut active));
    // The iPhone starts sending and takes over.
    assert_eq!(iphone.take_over(&mut active), Some(1));
    assert!(iphone.allowed(&mut active));
    assert!(!ipad.allowed(&mut active));
    // The silent connection disconnects: no effect on the active one.
    assert!(!ipad.release(&mut active));
    assert!(iphone.allowed(&mut active));
    // The active one disconnects: free for the next sending one.
    assert!(iphone.release(&mut active));
    let ipad_again = SourceGate::new(3);
    assert!(ipad_again.allowed(&mut active));
}

#[test]
fn input_rate_is_clamped() {
    let mut jb = Player::new(48_000, 20.0, 200.0);
    jb.set_input_rate(u32::MAX);
    assert_eq!(jb.jb.stats().input_rate, 192_000);
    jb.set_input_rate(0);
    assert_eq!(jb.jb.stats().input_rate, 8_000);
}

#[test]
fn target_grows_on_underrun_and_loss() {
    let mut jb = Player::new(48_000, 40.0, 500.0);
    jb.push_i16(&vec![0i16; 4800]);
    let mut out = vec![0.0f32; 48_000];
    jb.pull(&mut out, 1); // runs dry -> underrun
    assert_eq!(jb.jb.stats().underruns, 1);
    assert!(jb.target() > 40.0, "{}", jb.target());
    let t = jb.target();
    jb.note_loss(2);
    assert!(jb.target() > t);
    assert!(jb.target() <= f64::from_bits(TARGET_MAX_MS));
    assert_eq!(number(jb.jb.base_target_ms()), 40.0);
}

#[test]
fn target_has_a_ceiling() {
    assert_eq!(f64::from_bits(TARGET_MAX_MS), 200.0);
    let mut jb = Player::new(48_000, 40.0, 500.0);
    jb.note_loss(0);
    assert_eq!(jb.target(), 40.0);
    jb.note_loss(1);
    assert_eq!(jb.target(), 50.0);
    jb.note_loss(2);
    assert_eq!(jb.target(), 70.0);
    jb.note_loss(99);
    assert_eq!(jb.target(), 100.0);
    for _ in 0..10 {
        jb.note_loss(3);
    }
    assert_eq!(jb.target(), 200.0);
    // A start value above the ceiling is its own ceiling.
    let mut wide = Player::new(48_000, 300.0, 900.0);
    wide.note_loss(3);
    assert_eq!(wide.target(), 300.0);
}

#[test]
fn target_shrinks_after_calm_time() {
    let mut jb = Player::new(48_000, 40.0, 500.0);
    jb.note_loss(1);
    assert_eq!(jb.target(), 50.0);
    jb.now += CALM_AFTER - 10;
    jb.push_i16(&[0; 10]);
    assert_eq!(jb.target(), 50.0, "not yet calm");
    jb.now += 10;
    jb.push_i16(&[0; 10]);
    assert_eq!(jb.target(), 40.0, "four fifths of 50");
    jb.now += CALM_AFTER;
    jb.push_i16(&[0; 10]);
    assert_eq!(jb.target(), 40.0, "never below the start value");
}

#[test]
fn earlier_underruns_stay_counted() {
    let mut jb = Player::new(48_000, 40.0, 500.0);
    jb.push_i16(&vec![0i16; 4800]);
    let mut out = vec![0.0f32; 48_000];
    jb.pull(&mut out, 1);
    jb.push_i16(&vec![0i16; 480]);
    jb.jb.source_disconnected();
    assert_eq!(jb.jb.stats().underruns, 1, "audio came after the underrun");
    assert_eq!(jb.target(), 60.0);
}

#[test]
fn buffer_plays_what_was_queued() {
    let steps = Steps {
        lost_one: bits(1.0),
        lost_two: bits(2.0),
        lost_more: bits(3.0),
        dry: bits(75.0),
        calm: bits(5.0),
    };
    let mut jb = JitterBuffer::new(48_000, bits(50.0), bits(500.0), 0);
    jb.queue_samples(&[1, 2, 3, 4, 5]);
    jb.settle(4, 4);
    assert_eq!(jb.stats().dropped_samples, 1);
    let mut out = vec![9u32; 7];
    jb.pull(&mut out, 2, bits(0.5), &steps, 10);
    assert_eq!(out, [2, 2, 3, 3, 4, 4, 9], "an incomplete last frame is left alone");
    let mut out = vec![9u32; 5];
    jb.pull(&mut out, 2, bits(0.5), &steps, 11);
    assert_eq!(out, [5, 5, 0, 0, 0], "silence once the buffer is dry");
    assert_eq!(jb.stats().underruns, 1);
    assert_eq!(number(jb.stats().target_ms), 75.0);
    let mut out = vec![9u32; 3];
    jb.pull(&mut out, 0, bits(0.5), &steps, 12);
    assert_eq!(out, [0, 0, 0], "silence until primed again");
}

#[test]
fn blocks_are_taken_in_order() {
    let steps = Player::new(48_000, 40.0, 500.0).steps();
    let mut jb = JitterBuffer::new(48_000, bits(40.0), bits(500.0), 0);
    let samples: Vec<i16> = (0..1000).collect();
    jb.push_i16(&samples, &steps, 1);
    assert_eq!(jb.next_chunk().unwrap(), samples[..480]);
    assert_eq!(jb.next_chunk().unwrap(), samples[480..960]);
    assert!(jb.next_chunk().is_none());
    assert_eq!(jb.buffered(), (40, 0));
    assert!(!jb.set_input_rate(48_000));
    assert!(jb.set_input_rate(44_100));
    assert_eq!(jb.buffered(), (0, 0), "what waited at the old rate is gone");
    assert_eq!(jb.stats().frames_received, 1);
    assert_eq!(jb.stats().samples_received, 1000);
}

#[test]
fn numbers_are_ordered_like_floats() {
    let values = [
        f64::NEG_INFINITY, -200.5, -0.0, 0.0, 1e-300, 40.0, 200.0, f64::INFINITY, f64::NAN,
    ];
    for a in values {
        assert_eq!(bits(a).nan(), a.is_nan());
        for b in values {
            assert_eq!(bits(a).at_most(bits(b)), a <= b, "{a} {b}");
            let min = number(bits(a).smaller_of(bits(b)));
            let max = number(bits(a).larger_of(bits(b)));
            if !(a.is_nan() && b.is_nan()) {
                assert_eq!(min, a.min(b), "{a} {b}");
                assert_eq!(max, a.max(b), "{a} {b}");
            }
        }
    }
}

#[test]
fn ratio_is_limited_like_clamp() {
    assert_eq!((f64::from_bits(RATIO_MIN), f64::from_bits(RATIO_MAX)), (0.995, 1.005));
    for x in [-1.0, 0.0, 0.994, 0.995, 0.9951, 1.0, 1.005, 1.0051, 7.0, f64::INFINITY] {
        assert_eq!(number(limit_ratio(bits(x))), x.clamp(0.995, 1.005), "{x}");
    }
    assert!(limit_ratio(bits(f64::NAN)).nan());
}

#[test]
fn a_push_keeps_the_newest_samples() {
    let steps = Player::new(48_000, 40.0, 500.0).steps();
    let mut jb = JitterBuffer::new(48_000, bits(40.0), bits(500.0), 0);
    jb.queue_samples(&[1, 2, 3]);
    let samples: Vec<i16> = (0..1100).collect();
    jb.push_i16(&samples, &steps, 1);
    let mut out = 10;
    while let Some(block) = jb.next_chunk() {
        assert_eq!(block.len(), CHUNK);
        jb.queue_samples(&[out, out + 1]);
        out += 10;
    }
    jb.settle(5, 5);
    assert_eq!(jb.buffered(), (140, 5));
    assert_eq!(jb.stats().dropped_samples, 2);
    let mut heard = vec![0u32; 5];
    jb.pull(&mut heard, 1, bits(0.0), &steps, 2);
    assert_eq!(heard, [3, 10, 11, 20, 21]);
}
