//! PCM blocks as they arrive on the WebSocket: an 8-byte little-endian header (sample rate, channel
//! count, sequence number) followed by interleaved 16-bit samples, of which the first channel is
//! used.

use vstd::prelude::*;

verus! {

/// Lowest sample rate on the PCM path (Bluetooth headsets send 8 to 16 kHz).
pub const PCM_RATE_MIN: u32 = 8_000;

/// Highest sample rate on the PCM path; anything outside is dropped.
pub const PCM_RATE_MAX: u32 = 192_000;

/// At most this many channels in the PCM header; only the first one is used.
pub const PCM_MAX_CHANNELS: u16 = 8;

/// Longest PCM block accepted (real blocks are 10 ms).
pub const PCM_MAX_FRAME_MS: u64 = 100;

/// Bytes before the samples.
pub const PCM_HEADER: usize = 8;

/// The header of a PCM block.
#[derive(Debug, Clone, Copy, PartialEq, Eq, Structural)]
pub struct PcmHeader {
    pub rate: u32,
    pub channels: u16,
    pub seq: u16,
}

/// The number that two bytes stand for, low byte first.
pub open spec fn pair(lo: u8, hi: u8) -> int {
    lo + 256 * hi
}

/// The sample that two bytes stand for, low byte first, in two's complement.
pub open spec fn sample(lo: u8, hi: u8) -> i16 {
    if pair(lo, hi) < 0x8000 {
        pair(lo, hi) as i16
    } else {
        (pair(lo, hi) - 0x1_0000) as i16
    }
}

/// The two bytes that stand for a sample, low byte first.
pub open spec fn sample_bytes(s: i16) -> (u8, u8) {
    let u = if s >= 0 {
        s as int
    } else {
        s + 0x1_0000
    };
    ((u % 256) as u8, (u / 256) as u8)
}

/// What the first eight bytes of a block say.
pub open spec fn header_of(b: Seq<u8>) -> PcmHeader {
    PcmHeader {
        rate: (pair(b[0], b[1]) + 0x1_0000 * pair(b[2], b[3])) as u32,
        channels: pair(b[4], b[5]) as u16,
        seq: pair(b[6], b[7]) as u16,
    }
}

/// Whether the rate and the channel count are ones that are played.
pub open spec fn valid_header(h: PcmHeader) -> bool {
    &&& PCM_RATE_MIN <= h.rate <= PCM_RATE_MAX
    &&& 1 <= h.channels <= PCM_MAX_CHANNELS
}

/// How many whole frames (one sample per channel) follow the header; a block without channels counts
/// as one with a single channel.
pub open spec fn frame_count(len: int, h: PcmHeader) -> int {
    (len - PCM_HEADER) / 2 / (if h.channels == 0 {
        1int
    } else {
        h.channels as int
    })
}

/// Whether a block of `frames` frames holds more than 100 ms of sound.
pub open spec fn too_long(frames: int, rate: u32) -> bool {
    frames > rate * PCM_MAX_FRAME_MS / 1000
}

/// How many samples of the first channel `len` bytes of samples hold; one at the end counts even if
/// its frame is cut short.
pub open spec fn mono_count(len: int, channels: u16) -> int {
    if len < 2 || channels == 0 {
        0
    } else {
        (len - 2) / (2 * channels as int) + 1
    }
}

/// The samples of the first channel.
pub open spec fn mono_of(b: Seq<u8>, channels: u16) -> Seq<i16> {
    Seq::new(
        mono_count(b.len() - PCM_HEADER, channels) as nat,
        |k: int|
            sample(
                b[PCM_HEADER + 2 * channels * k],
                b[PCM_HEADER + 2 * channels * k + 1],
            ),
    )
}

/// The number that two bytes stand for, low byte first.
pub fn read_u16(lo: u8, hi: u8) -> (r: u16)
    ensures
        r == pair(lo, hi),
{
    lo as u16 + 256 * (hi as u16)
}

/// The sample that two bytes stand for, low byte first.
pub fn read_i16(lo: u8, hi: u8) -> (r: i16)
    ensures
        r == sample(lo, hi),
{
    let u: u16 = read_u16(lo, hi);
    if u < 0x8000 {
        u as i16
    } else {
        (u as i32 - 0x1_0000) as i16
    }
}

/// Reads the header of a block.
pub fn read_header(b: &[u8]) -> (r: PcmHeader)
    requires
        b.len() >= PCM_HEADER,
    ensures
        r == header_of(b@),
{
    PcmHeader {
        rate: read_u16(b[0], b[1]) as u32 + 0x1_0000 * (read_u16(b[2], b[3]) as u32),
        channels: read_u16(b[4], b[5]),
        seq: read_u16(b[6], b[7]),
    }
}

/// Whether the rate and the channel count are ones that are played.
pub fn header_ok(h: &PcmHeader) -> (r: bool)
    ensures
        r == valid_header(*h),
{
    PCM_RATE_MIN <= h.rate && h.rate <= PCM_RATE_MAX && h.channels > 0 && h.channels
        <= PCM_MAX_CHANNELS
}

/// How many whole frames a block of `len` bytes holds.
pub fn frames_in(len: usize, h: &PcmHeader) -> (r: usize)
    requires
        len >= PCM_HEADER,
    ensures
        r == frame_count(len as int, *h),
{
    let channels: usize = if h.channels == 0 {
        1
    } else {
        h.channels as usize
    };
    (len - PCM_HEADER) / 2 / channels
}

/// Whether a block of `frames` frames holds more than 100 ms of sound.
pub fn over_limit(frames: usize, rate: u32) -> (r: bool)
    ensures
        r == too_long(frames as int, rate),
{
    frames as u64 > rate as u64 * PCM_MAX_FRAME_MS / 1000
}

/// Takes the samples of the first channel out of a block.
pub fn read_mono(b: &[u8], channels: u16) -> (r: Vec<i16>)
    requires
        b.len() >= PCM_HEADER,
        channels > 0,
    ensures
        r@ == mono_of(b@, channels),
{
    let step: usize = 2 * (channels as usize);
    let mut mono: Vec<i16> = Vec::new();
    let mut at: usize = PCM_HEADER;
    let ghost n = mono_count(b.len() - PCM_HEADER, channels);
    let ghost len = b.len() - PCM_HEADER;
    proof {
        if len >= 2 {
            lemma_last_sample(len, channels as int, 0);
        }
    }
    while b.len() - at > 1
        invariant
            channels > 0,
            step == 2 * channels,
            b.len() >= PCM_HEADER,
            at <= b.len(),
            n == mono_count(b.len() - PCM_HEADER, channels),
            len == b.len() - PCM_HEADER,
            mono@.len() <= n,
            n >= 0,
            mono@.len() < n ==> at == PCM_HEADER + step * mono@.len() && at + 1 < b.len(),
            mono@.len() == n ==> b.len() - at <= 1,
            forall|k: int|
                0 <= k < mono@.len() ==> #[trigger] mono@[k] == sample(
                    b@[PCM_HEADER + 2 * channels * k],
                    b@[PCM_HEADER + 2 * channels * k + 1],
                ),
        decreases b.len() - at,
    {
        let ghost k = mono@.len() as int;
        assert(2 * channels * k == step * k);
        mono.push(read_i16(b[at], b[at + 1]));
        proof {
            lemma_last_sample(len, channels as int, k + 1);
            assert(step * (k + 1) == step * k + step) by (nonlinear_arith);
        }
        if b.len() - at > step {
            at = at + step;
        } else {
            at = b.len();
        }
    }
    mono
}

/// The `k`-th sample lies in the block if and only if it is counted.
proof fn lemma_last_sample(len: int, channels: int, k: int)
    requires
        len >= 2,
        channels > 0,
        k >= 0,
    ensures
        k < (len - 2) / (2 * channels) + 1 <==> 2 * channels * k + 1 < len,
        (len - 2) / (2 * channels) >= 0,
{
    let d = 2 * channels;
    let q = (len - 2) / d;
    assert(len - 2 == d * q + (len - 2) % d) by {
        vstd::arithmetic::div_mod::lemma_fundamental_div_mod(len - 2, d);
    }
    assert(0 <= (len - 2) % d < d) by {
        vstd::arithmetic::div_mod::lemma_mod_bound(len - 2, d);
    }
    vstd::arithmetic::div_mod::lemma_div_pos_is_pos(len - 2, d);
    assert(k <= q <==> d * k <= d * q + (len - 2) % d) by (nonlinear_arith)
        requires
            0 <= (len - 2) % d < d,
            d > 0,
    ;
}

/// Every sample that a sender writes low byte first is read back as it was.
pub proof fn sample_reads_back(s: i16)
    ensures
        sample(sample_bytes(s).0, sample_bytes(s).1) == s,
{
}

/// A block that a sender builds: the header and the samples of one channel.
pub open spec fn block_of(h: PcmHeader, samples: Seq<i16>) -> Seq<u8> {
    seq![
        (h.rate % 256) as u8,
        (h.rate / 256 % 256) as u8,
        (h.rate / 0x1_0000 % 256) as u8,
        (h.rate / 0x100_0000) as u8,
        (h.channels % 256) as u8,
        (h.channels / 256) as u8,
        (h.seq % 256) as u8,
        (h.seq / 256) as u8,
    ] + Seq::new(
        2 * samples.len(),
        |i: int|
            if i % 2 == 0 {
                sample_bytes(samples[i / 2]).0
            } else {
                sample_bytes(samples[i / 2]).1
            },
    )
}

/// A block with one channel gives back the header and the samples that it was built from.
pub proof fn block_reads_back(h: PcmHeader, samples: Seq<i16>)
    requires
        h.channels == 1,
    ensures
        header_of(block_of(h, samples)) == h,
        mono_of(block_of(h, samples), 1) == samples,
        frame_count(block_of(h, samples).len() as int, h) == samples.len(),
{
    let b = block_of(h, samples);
    assert(b.len() == PCM_HEADER + 2 * samples.len());
    assert(h.rate == h.rate % 256 + 256 * (h.rate / 256 % 256) + 0x1_0000 * (h.rate / 0x1_0000
        % 256) + 0x100_0000 * (h.rate / 0x100_0000));
    let m = mono_of(b, 1);
    assert(m.len() == samples.len());
    assert forall|k: int| 0 <= k < samples.len() implies m[k] == samples[k] by {
        let i = 2 * k;
        assert(i % 2 == 0 && i / 2 == k && (i + 1) % 2 == 1 && (i + 1) / 2 == k);
        assert(b[PCM_HEADER + i] == sample_bytes(samples[k]).0);
        assert(b[PCM_HEADER + i + 1] == sample_bytes(samples[k]).1);
        sample_reads_back(samples[k]);
    }
    assert(m =~= samples);
    vstd::arithmetic::div_mod::lemma_div_basics(samples.len() as int);
}

/// Only the first channel is heard: blocks that agree on it give the same samples, whatever the
/// other channels hold.
pub proof fn only_the_first_channel_is_heard(a: Seq<u8>, b: Seq<u8>, channels: u16)
    requires
        a.len() == b.len(),
        forall|k: int|
            0 <= k < mono_count(a.len() - PCM_HEADER, channels) ==> {
                &&& #[trigger] a[PCM_HEADER + 2 * channels * k] == b[PCM_HEADER + 2 * channels * k]
                &&& a[PCM_HEADER + 2 * channels * k + 1] == b[PCM_HEADER + 2 * channels * k + 1]
            },
    ensures
        mono_of(a, channels) == mono_of(b, channels),
{
    assert(mono_of(a, channels) =~= mono_of(b, channels));
}

/// Bytes are put together low byte first: the low byte, and 256 times the high one. A sample is this
/// number as a signed one: the same up to 65536.
pub proof fn bytes_are_read_low_first(lo: u8, hi: u8)
    ensures
        pair(lo, hi) == lo + 256 * hi,
        (sample(lo, hi) - lo - 256 * hi) % 0x1_0000 == 0,
{
}

/// The two bytes of a sample make it up in the same way.
pub proof fn samples_are_written_low_first(s: i16)
    ensures
        (s - sample_bytes(s).0 - 256 * sample_bytes(s).1) % 0x1_0000 == 0,
{
}

/// The header says, low byte first, the rate in the first four bytes, the number of channels in the
/// next two and the sequence number in the last two.
pub proof fn headers_are_read_low_first(b: Seq<u8>)
    requires
        b.len() >= 8,
    ensures
        header_of(b).rate == b[0] + 256 * b[1] + 65_536 * b[2] + 16_777_216 * b[3],
        header_of(b).channels == b[4] + 256 * b[5],
        header_of(b).seq == b[6] + 256 * b[7],
{
}

/// A header is valid for 8 to 192 kHz and one to eight channels.
pub proof fn valid_headers(h: PcmHeader)
    ensures
        valid_header(h) <==> 8_000 <= h.rate <= 192_000 && 1 <= h.channels <= 8,
{
}

/// The frames of a block are as many as fit behind the header: a frame takes two bytes per channel.
/// More than a tenth of a second of them is too long.
pub proof fn frames_fill_the_block(len: int, h: PcmHeader, frames: int, rate: u32)
    requires
        len >= 8,
        h.channels >= 1,
    ensures
        frame_count(len, PcmHeader { channels: 0, ..h }) == frame_count(
            len,
            PcmHeader { channels: 1, ..h },
        ),
        8 + 2 * h.channels * frame_count(len, h) <= len,
        len < 8 + 2 * h.channels * (frame_count(len, h) + 1),
        frame_count(len, h) >= 0,
        too_long(frames, rate) <==> 10 * frames > rate,
{
    let ch = h.channels as int;
    let n = len - 8;
    let q = n / 2 / ch;
    vstd::arithmetic::div_mod::lemma_div_denominator(n, 2, ch);
    vstd::arithmetic::div_mod::lemma_fundamental_div_mod(n, 2 * ch);
    vstd::arithmetic::div_mod::lemma_mod_bound(n, 2 * ch);
    vstd::arithmetic::div_mod::lemma_div_pos_is_pos(n, 2 * ch);
    assert(2 * ch * (q + 1) == 2 * ch * q + 2 * ch) by (nonlinear_arith);
}

/// What is taken of a block is its first channel: the `k`-th sample stands behind `k` whole frames,
/// low byte first, and there are as many as have both their bytes in the block.
pub proof fn the_first_channel_is_taken(b: Seq<u8>, channels: u16, k: int)
    requires
        b.len() >= 8,
        channels >= 1,
        k >= 0,
    ensures
        k < mono_of(b, channels).len() <==> 8 + 2 * channels * k + 1 < b.len(),
        k < mono_of(b, channels).len() ==> 0 <= 8 + 2 * channels * k && (mono_of(b, channels)[k]
            - b[8 + 2 * channels * k] - 256 * b[8 + 2 * channels * k + 1]) % 0x1_0000 == 0,
{
    let n = b.len() - 8;
    assert(0 <= 2 * channels * k) by (nonlinear_arith)
        requires
            channels >= 1,
            k >= 0,
    ;
    if n >= 2 {
        lemma_last_sample(n, channels as int, k);
    }
    if k < mono_of(b, channels).len() {
        bytes_are_read_low_first(b[8 + 2 * channels * k], b[8 + 2 * channels * k + 1]);
    }
}

/// A block that a sender builds of frames with one sample per channel.
pub open spec fn interleaved(h: PcmHeader, frames: Seq<Seq<i16>>) -> Seq<u8> {
    block_of(
        h,
        Seq::new(
            (h.channels * frames.len()) as nat,
            |i: int| frames[i / h.channels as int][i % h.channels as int],
        ),
    )
}

/// The first channel of frames.
pub open spec fn first_channel(frames: Seq<Seq<i16>>) -> Seq<i16> {
    Seq::new(frames.len(), |k: int| frames[k][0])
}

/// Of a block with any number of channels the header is read back and exactly the samples of the first
/// channel are taken, one per frame.
pub proof fn interleaved_blocks_give_the_first_channel(h: PcmHeader, frames: Seq<Seq<i16>>)
    requires
        h.channels >= 1,
    ensures
        interleaved(h, frames).len() == 8 + 2 * h.channels * frames.len(),
        header_of(interleaved(h, frames)) == h,
        frame_count(interleaved(h, frames).len() as int, h) == frames.len(),
        mono_of(interleaved(h, frames), h.channels) == first_channel(frames),
{
    let ch = h.channels as int;
    let n = frames.len() as int;
    assert(0 <= ch * n) by (nonlinear_arith)
        requires
            ch >= 1,
            n >= 0,
    ;
    let flat = Seq::new(
        (h.channels * frames.len()) as nat,
        |i: int| frames[i / h.channels as int][i % h.channels as int],
    );
    let b = interleaved(h, frames);
    assert(flat.len() == ch * n);
    assert(b.len() == 8 + 2 * (ch * n));
    assert(2 * (ch * n) == 2 * ch * n) by (nonlinear_arith);
    assert(h.rate == h.rate % 256 + 256 * (h.rate / 256 % 256) + 0x1_0000 * (h.rate / 0x1_0000
        % 256) + 0x100_0000 * (h.rate / 0x100_0000));
    assert(header_of(b) == h);
    vstd::arithmetic::div_mod::lemma_div_denominator(b.len() - 8, 2, ch);
    vstd::arithmetic::div_mod::lemma_div_multiples_vanish(n, 2 * ch);
    assert(b.len() - 8 == (2 * ch) * n);
    let m = mono_of(b, h.channels);
    assert(m.len() == n) by {
        the_first_channel_is_taken(b, h.channels, n);
        if n > 0 {
            the_first_channel_is_taken(b, h.channels, n - 1);
            assert(2 * h.channels * (n - 1) == 2 * ch * n - 2 * ch) by (nonlinear_arith)
                requires
                    ch == h.channels,
            ;
        }
    }
    assert forall|k: int| 0 <= k < n implies m[k] == frames[k][0] by {
        assert(ch * k + ch <= ch * n && 0 <= ch * k) by (nonlinear_arith)
            requires
                0 <= k < n,
                ch >= 1,
        ;
        let at = ch * k;
        assert(at / ch == k && at % ch == 0) by {
            vstd::arithmetic::div_mod::lemma_div_multiples_vanish(k, ch);
            vstd::arithmetic::div_mod::lemma_mod_multiples_basic(k, ch);
            assert(k * ch == ch * k) by (nonlinear_arith);
        }
        assert(flat[at] == frames[k][0]);
        let i = 2 * at;
        assert(2 * h.channels * k == i) by (nonlinear_arith)
            requires
                i == 2 * (ch * k),
                ch == h.channels,
        ;
        assert(i % 2 == 0 && i / 2 == at && (i + 1) % 2 == 1 && (i + 1) / 2 == at);
        assert(b[8 + i] == sample_bytes(flat[at]).0);
        assert(b[8 + i + 1] == sample_bytes(flat[at]).1);
        sample_reads_back(flat[at]);
    }
    assert(m =~= first_channel(frames));
}

} // verus!
