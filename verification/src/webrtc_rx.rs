//! The WebRTC path: an Opus audio track arrives as RTP packets, which are decoded to 48 kHz mono.
//!
//! The decoder itself is not here; [`Receiver`] decides, packet by packet, whether this connection
//! plays, what was lost on the way, and which frames the decoder has to produce: the first missing
//! packet is rebuilt from the next one via in-band FEC, larger gaps are concealed (up to 5 frames).

use vstd::prelude::*;
use crate::audio;
use crate::audio::SourceGate;
use crate::connection;
use crate::limit;

verus! {

/// Sample rate that the decoder produces.
pub const OPUS_RATE: u32 = 48_000;

/// Longest frame of an Opus packet, 120 ms, in samples.
pub const MAX_FRAME: usize = 5760;

/// Frame length assumed until a packet says otherwise, 20 ms, in samples.
pub const DEFAULT_FRAME: usize = 960;

/// Fewer missing packets than this are concealed; from here on the decoder starts over.
pub const RESYNC_GAP: u16 = 10;

/// From here on a jump is a late or repeated packet, not a loss.
pub const REORDERED_GAP: u16 = 0x8000;

/// At most this many frames are concealed per gap.
pub const MAX_CONCEALED: u16 = 5;

/// The loss that a large gap counts as for the jitter buffer.
pub const RESYNC_LOSS: u64 = 3;

/// Running counters of the RTC path.
#[derive(Debug, Clone, Copy, PartialEq, Eq, Structural)]
pub struct RtcStats {
    pub packets: u64,
    pub lost: u64,
    pub fec_recovered: u64,
    pub plc_frames: u64,
    pub decode_errors: u64,
    pub connected: bool,
}

/// All counters at zero.
pub open spec fn no_stats() -> RtcStats {
    RtcStats {
        packets: 0,
        lost: 0,
        fec_recovered: 0,
        plc_frames: 0,
        decode_errors: 0,
        connected: false,
    }
}

impl Default for RtcStats {
    fn default() -> (r: Self)
        ensures
            r == no_stats(),
    {
        RtcStats {
            packets: 0,
            lost: 0,
            fec_recovered: 0,
            plc_frames: 0,
            decode_errors: 0,
            connected: false,
        }
    }
}

/// The audio codec that is offered: Opus and nothing else. With more codecs in the answer, browsers
/// did choose G.711.
#[derive(Debug, Clone, Copy)]
pub struct Codec {
    pub clock_rate: u32,
    pub channels: u16,
    pub fmtp: &'static str,
    pub payload_type: u8,
}

/// The parameters under which Opus is offered: stereo in the SDP (as Opus always is), but mono on
/// the wire, with in-band FEC.
pub fn opus_codec() -> (r: Codec)
    ensures
        r.clock_rate == OPUS_RATE,
        r.channels == 2,
        r.fmtp@ == "minptime=10;useinbandfec=1;stereo=0;sprop-stereo=0"@,
        r.payload_type == 111,
{
    Codec {
        clock_rate: OPUS_RATE,
        channels: 2,
        fmtp: "minptime=10;useinbandfec=1;stereo=0;sprop-stereo=0",
        payload_type: 111,
    }
}

/// Where the packets of one audio track stand.
#[derive(Debug)]
pub struct Receiver {
    gate: SourceGate,
    expected: Option<u16>,
    last_frame: usize,
    claimed: bool,
}

/// Where the packets of one audio track stand.
#[verifier::ext_equal]
pub struct ReceiverView {
    /// The connection's id.
    pub id: u64,
    /// The sequence number that comes next.
    pub expected: Option<u16>,
    /// The frame length of the last packet, in samples.
    pub last_frame: usize,
    /// Whether a packet has arrived.
    pub claimed: bool,
}

impl View for Receiver {
    type V = ReceiverView;

    closed spec fn view(&self) -> ReceiverView {
        ReceiverView {
            id: self.gate.spec_id(),
            expected: self.expected,
            last_frame: self.last_frame,
            claimed: self.claimed,
        }
    }
}

/// How far `seq` is ahead of the number that was expected, counted round the end.
pub open spec fn ahead(expected: u16, seq: u16) -> int {
    if seq >= expected {
        seq - expected
    } else {
        seq - expected + 0x1_0000
    }
}

/// How far `seq` is ahead of the number that was expected, counted round the end.
pub fn distance(expected: u16, seq: u16) -> (r: u16)
    ensures
        r == ahead(expected, seq),
{
    if seq >= expected {
        seq - expected
    } else {
        u16::MAX - expected + seq + 1
    }
}

/// What the decoder has to do for a packet.
#[derive(Debug, Clone, Copy, PartialEq, Eq, Structural)]
pub enum RtcAction {
    /// Rebuild the packet before this one from it (in-band FEC), as a frame of this length.
    Recover { frame: usize },
    /// Conceal a missing packet with a frame of this length.
    Conceal { frame: usize },
    /// Decode the packet.
    Decode,
    /// Nothing more.
    Done,
}

/// What is still to be decoded for a packet.
#[derive(Debug, Clone, Copy, PartialEq, Eq, Structural)]
pub struct PacketRun {
    /// What comes next.
    pub next: RtcAction,
    /// How many packets are missing before this one; the first is rebuilt, the others concealed.
    pub missing: u16,
    /// The frame length for missing packets.
    pub frame: usize,
    /// The loss to tell the jitter buffer, 0 if there was none.
    pub loss: u64,
    /// Whether the decoder has to start over first.
    pub reset: bool,
}

/// What to do with a packet.
#[derive(Debug, Clone, Copy, PartialEq, Eq, Structural)]
pub enum PacketStep {
    /// Nothing is decoded: another connection plays, or the packet is empty.
    Skip,
    /// The packet is decoded.
    Play(PacketRun),
}

/// What came out of a decoder call.
#[derive(Debug, Clone, Copy, PartialEq, Eq, Structural)]
pub struct Decoded {
    /// How many samples go into the jitter buffer.
    pub samples: Option<usize>,
    /// A decoder error to log, with its number.
    pub log_error: Option<u64>,
}

impl ReceiverView {
    /// A track of connection `id` from which no packet has arrived.
    pub open spec fn fresh(id: u64) -> ReceiverView {
        ReceiverView { id, expected: None, last_frame: DEFAULT_FRAME, claimed: false }
    }

    /// Whether a packet is played: the first one proves that the connection works and takes over,
    /// later ones only play while no other connection is the source.
    pub open spec fn plays(self, active: u64) -> bool {
        !self.claimed || audio::may_play(self.id, active) == self.id
    }

    /// The source after a packet.
    pub open spec fn source_after(self, active: u64) -> u64 {
        if self.claimed {
            audio::may_play(self.id, active)
        } else {
            self.id
        }
    }

    /// Whether a packet is decoded.
    pub open spec fn decodes(self, empty: bool, active: u64) -> bool {
        self.plays(active) && !empty
    }

    /// The frame length from a packet on.
    pub open spec fn frame_with(self, frame: Option<usize>) -> usize {
        match frame {
            Some(n) => if 0 < n <= MAX_FRAME {
                n
            } else {
                self.last_frame
            },
            None => self.last_frame,
        }
    }

    /// How far a packet is ahead.
    pub open spec fn gap(self, seq: u16) -> int {
        match self.expected {
            Some(e) => ahead(e, seq),
            None => 0,
        }
    }

    /// The track after a packet. The sequence is followed even while nothing is decoded, so that a
    /// pause does not count as loss when this source comes back.
    pub open spec fn after_packet(
        self,
        seq: u16,
        empty: bool,
        frame: Option<usize>,
        active: u64,
    ) -> ReceiverView {
        ReceiverView {
            expected: Some(connection::next_seq(seq)),
            last_frame: if self.decodes(empty, active) {
                self.frame_with(frame)
            } else {
                self.last_frame
            },
            claimed: true,
            ..self
        }
    }

    /// The counters after a packet has arrived, before it is decoded.
    pub open spec fn counted(self, seq: u16, empty: bool, active: u64, stats: RtcStats) -> RtcStats {
        let begun = if self.claimed {
            stats
        } else {
            RtcStats { connected: true, ..no_stats() }
        };
        if self.decodes(empty, active) && self.gap(seq) < REORDERED_GAP {
            RtcStats { lost: limit::counted(begun.lost, self.gap(seq)) as u64, ..begun }
        } else {
            begun
        }
    }

    /// What the decoder has to do for a packet.
    pub open spec fn run_for(self, seq: u16, frame: Option<usize>) -> PacketRun {
        let gap = self.gap(seq);
        let len = self.frame_with(frame);
        if 1 <= gap < RESYNC_GAP {
            PacketRun {
                next: RtcAction::Recover { frame: len },
                missing: gap as u16,
                frame: len,
                loss: gap as u64,
                reset: false,
            }
        } else {
            PacketRun {
                next: RtcAction::Decode,
                missing: 0,
                frame: len,
                loss: if RESYNC_GAP <= gap < REORDERED_GAP {
                    RESYNC_LOSS
                } else {
                    0
                },
                reset: RESYNC_GAP <= gap < REORDERED_GAP,
            }
        }
    }

    /// What to do with a packet.
    pub open spec fn packet_step(
        self,
        seq: u16,
        empty: bool,
        frame: Option<usize>,
        active: u64,
    ) -> PacketStep {
        if self.decodes(empty, active) {
            PacketStep::Play(self.run_for(seq, frame))
        } else {
            PacketStep::Skip
        }
    }
}

impl Receiver {
    /// A track of the connection with this gate.
    pub fn new(gate: SourceGate) -> (r: Self)
        ensures
            r@ == ReceiverView::fresh(gate.spec_id()),
    {
        Receiver { gate, expected: None, last_frame: DEFAULT_FRAME, claimed: false }
    }

    /// A packet arrives. `empty` says whether it carries no payload, `frame` how many samples the
    /// decoder finds in it, if it can tell.
    pub fn on_packet(
        &mut self,
        seq: u16,
        empty: bool,
        frame: Option<usize>,
        active: &mut u64,
        stats: &mut RtcStats,
    ) -> (r: PacketStep)
        ensures
            final(self)@ == old(self)@.after_packet(seq, empty, frame, *old(active)),
            *final(active) == old(self)@.source_after(*old(active)),
            *final(stats) == old(self)@.counted(seq, empty, *old(active), *old(stats)),
            r == old(self)@.packet_step(seq, empty, frame, *old(active)),
            r matches PacketStep::Play(run) ==> run.valid(),
    {
        let mut plays = true;
        if !self.claimed {
            self.claimed = true;
            let _ = self.gate.take_over(active);
            *stats = RtcStats::default();
            stats.connected = true;
        } else {
            plays = self.gate.allowed(active);
        }
        let gap: u16 = match self.expected {
            Some(e) => distance(e, seq),
            None => 0,
        };
        self.expected = Some(connection::following(seq));
        if !plays || empty {
            return PacketStep::Skip;
        }
        if let Some(n) = frame {
            if n > 0 && n <= MAX_FRAME {
                self.last_frame = n;
            }
        }
        if gap < REORDERED_GAP {
            stats.lost = limit::count_up(stats.lost, gap as u64);
        }
        if gap >= 1 && gap < RESYNC_GAP {
            PacketStep::Play(
                PacketRun {
                    next: RtcAction::Recover { frame: self.last_frame },
                    missing: gap,
                    frame: self.last_frame,
                    loss: gap as u64,
                    reset: false,
                },
            )
        } else {
            let large = gap >= RESYNC_GAP && gap < REORDERED_GAP;
            PacketStep::Play(
                PacketRun {
                    next: RtcAction::Decode,
                    missing: 0,
                    frame: self.last_frame,
                    loss: if large {
                        RESYNC_LOSS
                    } else {
                        0
                    },
                    reset: large,
                },
            )
        }
    }
}

/// The smaller of a number of missing packets and the most that are concealed.
pub open spec fn concealed(missing: int) -> int {
    if missing < MAX_CONCEALED {
        missing
    } else {
        MAX_CONCEALED as int
    }
}

impl PacketRun {
    /// The run with `left` packets still to conceal.
    pub open spec fn concealing(self, left: int) -> PacketRun {
        PacketRun {
            missing: left as u16,
            next: if left > 0 {
                RtcAction::Conceal { frame: self.frame }
            } else {
                RtcAction::Decode
            },
            ..self
        }
    }

    /// The run after a decoder call; `n` is how many samples came out, none after an error.
    pub open spec fn after(self, n: Option<usize>) -> PacketRun {
        match self.next {
            RtcAction::Recover { .. } => self.concealing(
                concealed(
                    if n is Some {
                        self.missing - 1
                    } else {
                        self.missing as int
                    },
                ),
            ),
            RtcAction::Conceal { .. } => self.concealing(self.missing - 1),
            _ => PacketRun { next: RtcAction::Done, ..self },
        }
    }

    /// The counters after a decoder call.
    pub open spec fn stats_after(self, n: Option<usize>, stats: RtcStats) -> RtcStats {
        match self.next {
            RtcAction::Recover { .. } => if n is Some {
                RtcStats { fec_recovered: limit::counted(stats.fec_recovered, 1) as u64, ..stats }
            } else {
                stats
            },
            RtcAction::Conceal { .. } => if n is Some {
                RtcStats { plc_frames: limit::counted(stats.plc_frames, 1) as u64, ..stats }
            } else {
                stats
            },
            RtcAction::Decode => if n is Some {
                RtcStats { packets: limit::counted(stats.packets, 1) as u64, ..stats }
            } else {
                RtcStats { decode_errors: limit::counted(stats.decode_errors, 1) as u64, ..stats }
            },
            RtcAction::Done => stats,
        }
    }

    /// What comes out of a decoder call.
    pub open spec fn decoded(self, n: Option<usize>, stats: RtcStats) -> Decoded {
        let errors = limit::counted(stats.decode_errors, 1) as u64;
        Decoded {
            samples: if self.next is Done {
                None
            } else {
                n
            },
            log_error: if self.next is Decode && n is None && (errors <= 5 || errors % 500 == 0) {
                Some(errors)
            } else {
                None
            },
        }
    }

    /// Whether the run is one that a packet leads to: while packets are missing there is at least
    /// one, and fewer than `RESYNC_GAP`.
    pub open spec fn valid(self) -> bool {
        &&& self.missing < RESYNC_GAP
        &&& self.next is Recover || self.next is Conceal ==> self.missing >= 1
    }

    /// The decoder has done what was asked; `n` is how many samples came out, none after an error.
    pub fn on_decoded(&mut self, n: Option<usize>, stats: &mut RtcStats) -> (r: Decoded)
        requires
            old(self).valid(),
        ensures
            final(self).valid(),
            *final(self) == old(self).after(n),
            *final(stats) == old(self).stats_after(n, *old(stats)),
            r == old(self).decoded(n, *old(stats)),
            !(old(self).next is Done) ==> r.samples == n,
    {
        let mut log_error: Option<u64> = None;
        match self.next {
            RtcAction::Recover { .. } => {
                if n.is_some() {
                    stats.fec_recovered = limit::count_up(stats.fec_recovered, 1);
                    self.missing = self.missing - 1;
                }
                if self.missing > MAX_CONCEALED {
                    self.missing = MAX_CONCEALED;
                }
                self.skip_to_next();
            },
            RtcAction::Conceal { .. } => {
                if n.is_some() {
                    stats.plc_frames = limit::count_up(stats.plc_frames, 1);
                }
                self.missing = self.missing - 1;
                self.skip_to_next();
            },
            RtcAction::Decode => {
                if n.is_some() {
                    stats.packets = limit::count_up(stats.packets, 1);
                } else {
                    let errors: u64 = limit::count_up(stats.decode_errors, 1);
                    stats.decode_errors = errors;
                    if errors <= 5 || errors % 500 == 0 {
                        log_error = Some(errors);
                    }
                }
                self.next = RtcAction::Done;
            },
            RtcAction::Done => {
                return Decoded { samples: None, log_error: None };
            },
        }
        Decoded { samples: n, log_error }
    }

    fn skip_to_next(&mut self)
        requires
            old(self).missing < RESYNC_GAP,
        ensures
            final(self).valid(),
            *final(self) == old(self).concealing(old(self).missing as int),
    {
        if self.missing > 0 {
            self.next = RtcAction::Conceal { frame: self.frame };
        } else {
            self.next = RtcAction::Decode;
        }
    }
}

/// The counters after the state of connection `id` has changed.
pub open spec fn shown_state(id: u64, active: u64, connected: bool, stats: RtcStats) -> RtcStats {
    if active == id {
        RtcStats { connected, ..stats }
    } else {
        stats
    }
}

/// The state of a peer connection changes: whether it is connected is shown, unless another
/// connection has taken over.
pub fn on_connection_state(gate: &SourceGate, active: u64, connected: bool, stats: &mut RtcStats)
    ensures
        *final(stats) == (if active == gate.spec_id() {
            RtcStats { connected, ..*old(stats) }
        } else {
            *old(stats)
        }),
        *final(stats) == shown_state(gate.spec_id(), active, connected, *old(stats)),
{
    if gate.is_active(active) {
        stats.connected = connected;
    }
}

// ---------------------------------------------------------------------------------------------
// Laws
// ---------------------------------------------------------------------------------------------

/// The first packet of a track makes its connection the source, whoever was before, and the counters
/// start over.
pub proof fn first_packet_takes_over(
    v: ReceiverView,
    seq: u16,
    empty: bool,
    active: u64,
    stats: RtcStats,
)
    requires
        v == ReceiverView::fresh(v.id),
    ensures
        v.source_after(active) == v.id,
        v.counted(seq, empty, active, stats) == (RtcStats { connected: true, ..no_stats() }),
{
}

/// A track that another connection has taken over from decodes nothing, counts nothing and leaves
/// the source as it is.
pub proof fn superseded_track_is_muted(
    v: ReceiverView,
    seq: u16,
    empty: bool,
    frame: Option<usize>,
    active: u64,
    stats: RtcStats,
)
    requires
        v.claimed,
        active != 0,
        active != v.id,
    ensures
        v.packet_step(seq, empty, frame, active) == PacketStep::Skip,
        v.source_after(active) == active,
        v.counted(seq, empty, active, stats) == stats,
{
}

/// A packet that follows the one before it shows no loss, whether that one was played, skipped for
/// another source or empty: a pause does not count as loss.
pub proof fn next_packet_shows_no_loss(
    v: ReceiverView,
    seq: u16,
    empty: bool,
    frame: Option<usize>,
    active: u64,
    next_frame: Option<usize>,
    next_empty: bool,
    next_active: u64,
    stats: RtcStats,
)
    ensures
        ({
            let w = v.after_packet(seq, empty, frame, active);
            let next = connection::next_seq(seq);
            &&& w.gap(next) == 0
            &&& w.run_for(next, next_frame).loss == 0
            &&& !w.run_for(next, next_frame).reset
            &&& w.run_for(next, next_frame).next == RtcAction::Decode
            &&& w.counted(next, next_empty, next_active, stats) == stats
        }),
{
}

/// The sequence number that is `k` after `seq`, counted round the end.
pub open spec fn later(seq: u16, k: int) -> u16 {
    ((seq + k) % 0x1_0000) as u16
}

/// Every packet that is missing is counted once: if `k` packets are missing after `seq`, the next
/// one counts `k`. The loss that the jitter buffer learns of is `k`, or 3 where the decoder starts
/// over.
pub proof fn missing_packets_are_counted(
    v: ReceiverView,
    seq: u16,
    empty: bool,
    frame: Option<usize>,
    active: u64,
    k: int,
    stats: RtcStats,
)
    requires
        1 <= k < REORDERED_GAP,
        stats.lost + k <= u64::MAX,
        v.id != 0,
    ensures
        ({
            let w = v.after_packet(seq, empty, frame, active);
            let s = later(seq, k + 1);
            &&& w.gap(s) == k
            &&& w.counted(s, false, v.id, stats).lost == stats.lost + k
            &&& w.run_for(s, frame).loss == if k < RESYNC_GAP {
                k
            } else {
                RESYNC_LOSS as int
            }
            &&& w.run_for(s, frame).reset == (k >= RESYNC_GAP)
        }),
{
}

/// A packet that comes late or twice counts as no loss and conceals nothing.
pub proof fn late_packets_are_no_loss(
    v: ReceiverView,
    seq: u16,
    empty: bool,
    active: u64,
    frame: Option<usize>,
    stats: RtcStats,
)
    requires
        v.claimed,
        v.gap(seq) >= REORDERED_GAP,
    ensures
        v.counted(seq, empty, active, stats) == stats,
        v.run_for(seq, frame).loss == 0,
        !v.run_for(seq, frame).reset,
        v.run_for(seq, frame).next == RtcAction::Decode,
{
}

/// At most this many decoder calls are left.
pub open spec fn calls_left(run: PacketRun) -> int {
    match run.next {
        RtcAction::Recover { .. } => MAX_CONCEALED + 2,
        RtcAction::Conceal { .. } => run.missing + 1,
        RtcAction::Decode => 1,
        RtcAction::Done => 0,
    }
}

/// A run ends after at most seven decoder calls, however they turn out: there is no storm of
/// concealed frames.
pub proof fn runs_end(v: ReceiverView, seq: u16, frame: Option<usize>, run: PacketRun, n: Option<usize>)
    requires
        run.valid(),
    ensures
        calls_left(v.run_for(seq, frame)) <= 7,
        !(run.next is Done) ==> 0 <= calls_left(run.after(n)) < calls_left(run),
{
}

/// Up to six missing packets are all made up for where the decoder can: the first one is rebuilt, and
/// a frame is concealed for each of the others, before the packet itself is decoded.
pub proof fn missing_packets_are_made_up(run: PacketRun, n: usize)
    requires
        run.valid(),
        run.next is Recover,
        run.missing <= MAX_CONCEALED + 1,
    ensures
        run.after(Some(n)).missing == run.missing - 1,
        run.after(Some(n)).next == if run.missing > 1 {
            RtcAction::Conceal { frame: run.frame }
        } else {
            RtcAction::Decode
        },
{
}

/// Frame lengths stay within what the decoder's buffer holds.
pub proof fn frames_fit(
    v: ReceiverView,
    seq: u16,
    empty: bool,
    frame: Option<usize>,
    active: u64,
)
    requires
        0 < v.last_frame <= MAX_FRAME,
    ensures
        0 < v.after_packet(seq, empty, frame, active).last_frame <= MAX_FRAME,
        0 < v.run_for(seq, frame).frame <= MAX_FRAME,
{
}

/// Whatever is decoded comes from the source: a connection whose packet is played is the source from
/// then on.
pub proof fn decoded_packets_come_from_the_source(
    v: ReceiverView,
    seq: u16,
    empty: bool,
    frame: Option<usize>,
    active: u64,
)
    ensures
        v.packet_step(seq, empty, frame, active) is Play ==> v.source_after(active) == v.id,
{
}

/// The run and the counters after `calls` decoder calls that all give `n` samples.
pub open spec fn decoded_all(run: PacketRun, stats: RtcStats, n: usize, calls: nat) -> (
    PacketRun,
    RtcStats,
)
    decreases calls,
{
    if calls == 0 {
        (run, stats)
    } else {
        let (r, s) = decoded_all(run, stats, n, (calls - 1) as nat);
        (r.after(Some(n)), r.stats_after(Some(n), s))
    }
}

/// Where the decoder always succeeds, a packet after `k` missing ones (fewer than ten) takes one call
/// to rebuild the first, at most five to conceal the others and one for itself, and the counters say
/// so.
pub proof fn a_gap_is_filled(v: ReceiverView, seq: u16, frame: Option<usize>, stats: RtcStats, n: usize)
    requires
        1 <= v.gap(seq) < RESYNC_GAP,
        stats.fec_recovered < u64::MAX,
        stats.plc_frames <= u64::MAX - MAX_CONCEALED,
        stats.packets < u64::MAX,
    ensures
        ({
            let fill = concealed(v.gap(seq) - 1);
            let (run, after) = decoded_all(v.run_for(seq, frame), stats, n, (fill + 2) as nat);
            &&& run.next is Done
            &&& after == (RtcStats {
                fec_recovered: (stats.fec_recovered + 1) as u64,
                plc_frames: (stats.plc_frames + fill) as u64,
                packets: (stats.packets + 1) as u64,
                ..stats
            })
        }),
{
    let run = v.run_for(seq, frame);
    let fill = concealed(v.gap(seq) - 1);
    assert(decoded_all(run, stats, n, 0) == (run, stats));
    lemma_concealed(run, stats, n, fill);
}

/// After the first call, each further one conceals a frame until none is left.
proof fn lemma_concealed(run: PacketRun, stats: RtcStats, n: usize, done: int)
    requires
        run.valid(),
        run.next is Recover,
        0 <= done <= concealed(run.missing - 1),
        stats.fec_recovered < u64::MAX,
        stats.plc_frames <= u64::MAX - MAX_CONCEALED,
    ensures
        decoded_all(run, stats, n, (done + 1) as nat) == (
            run.concealing(concealed(run.missing - 1) - done),
            RtcStats {
                fec_recovered: (stats.fec_recovered + 1) as u64,
                plc_frames: (stats.plc_frames + done) as u64,
                ..stats
            },
        ),
    decreases done,
{
    if done == 0 {
        assert(decoded_all(run, stats, n, 0) == (run, stats));
    } else {
        lemma_concealed(run, stats, n, done - 1);
    }
}

/// Every sample is heard: a decoder call that gives samples hands exactly these to the jitter buffer,
/// whether it rebuilds, conceals or decodes; a call that fails hands none.
pub proof fn decoded_samples_are_heard(run: PacketRun, n: usize, stats: RtcStats)
    requires
        !(run.next is Done),
    ensures
        run.decoded(Some(n), stats).samples == Some(n),
        run.decoded(None, stats).samples is None,
        run.decoded(Some(n), stats).log_error is None,
{
}

/// The run after a row of decoder calls.
pub open spec fn run_after(run: PacketRun, results: Seq<Option<usize>>) -> PacketRun
    decreases results.len(),
{
    if results.len() == 0 {
        run
    } else {
        run_after(run, results.drop_last()).after(results.last())
    }
}

/// What a row of decoder calls hands to the jitter buffer, in order.
pub open spec fn heard(run: PacketRun, results: Seq<Option<usize>>, stats: RtcStats) -> Seq<usize>
    decreases results.len(),
{
    if results.len() == 0 {
        seq![]
    } else {
        let before = heard(run, results.drop_last(), stats);
        match run_after(run, results.drop_last()).decoded(results.last(), stats).samples {
            Some(n) => before.push(n),
            None => before,
        }
    }
}

/// What the successful ones of a row of decoder calls gave, in order.
pub open spec fn given(results: Seq<Option<usize>>) -> Seq<usize>
    decreases results.len(),
{
    if results.len() == 0 {
        seq![]
    } else {
        match results.last() {
            Some(n) => given(results.drop_last()).push(n),
            None => given(results.drop_last()),
        }
    }
}

/// Over a whole run the jitter buffer gets what all successful calls gave, in order, as long as the
/// run is not over.
pub proof fn a_run_hands_on_everything(
    run: PacketRun,
    results: Seq<Option<usize>>,
    stats: RtcStats,
)
    requires
        forall|k: int|
            0 <= k < results.len() ==> !(#[trigger] run_after(run, results.take(k)).next is Done),
    ensures
        heard(run, results, stats) == given(results),
    decreases results.len(),
{
    if results.len() > 0 {
        let init = results.drop_last();
        assert forall|k: int| 0 <= k < init.len() implies !(#[trigger] run_after(
            run,
            init.take(k),
        ).next is Done) by {
            assert(init.take(k) =~= results.take(k));
            assert(!(run_after(run, results.take(k)).next is Done));
        }
        a_run_hands_on_everything(run, init, stats);
        assert(results.take(results.len() - 1) =~= init);
        assert(!(run_after(run, results.take(results.len() - 1)).next is Done));
    }
}

/// The packet itself is decoded, once and as the last call of a run, however the others turned out:
/// a run is over exactly after that call.
pub proof fn the_packet_itself_is_decoded_last(run: PacketRun, n: Option<usize>)
    requires
        run.valid(),
        !(run.next is Done),
    ensures
        run.after(n).next is Done <==> run.next is Decode,
        run.next is Decode ==> run.after(n).missing == run.missing,
        run.after(n).frame == run.frame,
        run.after(n).loss == run.loss,
        run.after(n).reset == run.reset,
{
}

/// Rebuilding comes first and only once; then one frame of the same length is concealed per packet
/// that is still missing, at most five of them, whether that succeeds or not; then comes the packet.
pub proof fn missing_packets_come_before_it(run: PacketRun, n: usize, any: Option<usize>)
    requires
        run.valid(),
    ensures
        run.next is Recover ==> {
            let left = if run.missing - 1 < 5 {
                run.missing - 1
            } else {
                5
            };
            &&& run.after(Some(n)).missing == left
            &&& left == 0 ==> run.after(Some(n)).next is Decode
            &&& left > 0 ==> run.after(Some(n)).next == (RtcAction::Conceal { frame: run.frame })
        },
        run.next is Recover ==> {
            let left = if run.missing < 5 {
                run.missing as int
            } else {
                5
            };
            &&& run.after(None).missing == left
            &&& run.after(None).next == (RtcAction::Conceal { frame: run.frame })
        },
        run.next is Conceal ==> {
            &&& run.after(any).missing == run.missing - 1
            &&& run.missing == 1 ==> run.after(any).next is Decode
            &&& run.missing > 1 ==> run.after(any).next == (RtcAction::Conceal { frame: run.frame })
        },
{
}

/// Every call is counted once, under what it was for: a rebuilt packet, a concealed frame, a decoded
/// packet or a packet that could not be decoded. A frame that could not be rebuilt or concealed is
/// not counted, and neither losses nor the connection change.
pub proof fn calls_are_counted_once(run: PacketRun, n: Option<usize>, stats: RtcStats)
    ensures
        ({
            let after = run.stats_after(n, stats);
            let one = |counts: bool|
                if counts {
                    1int
                } else {
                    0
                };
            &&& after.lost == stats.lost
            &&& after.connected == stats.connected
            &&& after.fec_recovered == limit::counted(
                stats.fec_recovered,
                one(run.next is Recover && n is Some),
            )
            &&& after.plc_frames == limit::counted(
                stats.plc_frames,
                one(run.next is Conceal && n is Some),
            )
            &&& after.packets == limit::counted(stats.packets, one(run.next is Decode && n is Some))
            &&& after.decode_errors == limit::counted(
                stats.decode_errors,
                one(run.next is Decode && n is None),
            )
        }),
{
}

/// Of the packets that cannot be decoded the first five and then every five hundredth are logged, with
/// their number; nothing else is.
pub proof fn decode_errors_are_logged_sparsely(run: PacketRun, n: Option<usize>, stats: RtcStats)
    requires
        stats.decode_errors < u64::MAX,
    ensures
        run.decoded(n, stats).log_error == (if run.next is Decode && n is None && (
        stats.decode_errors < 5 || (stats.decode_errors + 1) % 500 == 0) {
            Some((stats.decode_errors + 1) as u64)
        } else {
            None
        }),
{
}

/// A sequence number is followed by the next one, after the largest by 0; the distance to a number is
/// what has to be added to get there, counted round the end.
pub proof fn sequence_numbers_go_round(expected: u16, seq: u16)
    ensures
        connection::next_seq(seq) as int == (seq + 1) % 0x1_0000,
        0 <= ahead(expected, seq) < 0x1_0000,
        (expected + ahead(expected, seq)) % 0x1_0000 == seq as int,
{
}

/// A packet with a payload is decoded whenever its connection may play: with its first packet, while it
/// is the source, and when there is none.
pub proof fn the_source_is_decoded(
    v: ReceiverView,
    seq: u16,
    frame: Option<usize>,
    active: u64,
)
    requires
        !v.claimed || active == v.id || active == 0,
    ensures
        v.packet_step(seq, false, frame, active) is Play,
        v.packet_step(seq, true, frame, active) is Skip,
        v.source_after(active) == v.id,
{
}

/// What a gap leads to, by the number of packets missing: none or a late packet, just the packet; up
/// to nine, the first is rebuilt and the others concealed; more, the decoder starts over, which counts
/// as a loss of three.
pub proof fn gaps_are_told_apart(v: ReceiverView, seq: u16, frame: Option<usize>)
    ensures
        ({
            let run = v.run_for(seq, frame);
            let gap = match v.expected {
                Some(e) => if seq >= e {
                    seq - e
                } else {
                    seq - e + 0x1_0000
                },
                None => 0,
            };
            &&& run.reset == (10 <= gap < 0x8000)
            &&& run.loss == if 1 <= gap <= 9 {
                gap
            } else if 10 <= gap < 0x8000 {
                3
            } else {
                0
            }
            &&& run.missing == if 1 <= gap <= 9 {
                gap
            } else {
                0
            }
            &&& 1 <= gap <= 9 ==> run.next == (RtcAction::Recover { frame: run.frame })
            &&& !(1 <= gap <= 9) ==> run.next is Decode
        }),
{
}

/// The frame length for missing packets is the one of the packet after them, where that is known and
/// within 120 ms; else the last one that was.
pub proof fn frames_follow_the_packets(
    v: ReceiverView,
    seq: u16,
    empty: bool,
    frame: Option<usize>,
    active: u64,
)
    ensures
        v.run_for(seq, frame).frame == (match frame {
            Some(n) => if 1 <= n <= 5760 {
                n
            } else {
                v.last_frame
            },
            None => v.last_frame,
        }),
        v.packet_step(seq, empty, frame, active) matches PacketStep::Play(run) ==> {
            &&& run == v.run_for(seq, frame)
            &&& v.after_packet(seq, empty, frame, active).last_frame == run.frame
        },
        v.packet_step(seq, empty, frame, active) is Skip ==> v.after_packet(
            seq,
            empty,
            frame,
            active,
        ).last_frame == v.last_frame,
        ReceiverView::fresh(v.id).last_frame == 960,
{
}

/// A packet moves the track on to the number after its own and changes nothing about whose it is; from
/// the first one on the track has claimed the source.
pub proof fn packets_move_the_track_on(
    v: ReceiverView,
    seq: u16,
    empty: bool,
    frame: Option<usize>,
    active: u64,
)
    ensures
        ({
            let w = v.after_packet(seq, empty, frame, active);
            &&& w.id == v.id
            &&& w.claimed
            &&& w.expected is Some
            &&& w.expected->0 as int == (seq + 1) % 0x1_0000
        }),
        !ReceiverView::fresh(v.id).claimed,
        ReceiverView::fresh(v.id).expected is None,
        ReceiverView::fresh(v.id).id == v.id,
{
}

/// Before it is decoded, a packet of a running track only adds the packets missing before it to the
/// losses, and that only if it is decoded at all.
pub proof fn only_losses_are_counted_on_arrival(
    v: ReceiverView,
    seq: u16,
    empty: bool,
    active: u64,
    stats: RtcStats,
)
    requires
        v.claimed,
    ensures
        ({
            let after = v.counted(seq, empty, active, stats);
            let gap = match v.expected {
                Some(e) => ahead(e, seq),
                None => 0,
            };
            &&& after.packets == stats.packets
            &&& after.fec_recovered == stats.fec_recovered
            &&& after.plc_frames == stats.plc_frames
            &&& after.decode_errors == stats.decode_errors
            &&& after.connected == stats.connected
            &&& after.lost == limit::counted(
                stats.lost,
                if !empty && (active == 0 || active == v.id) && gap < 0x8000 {
                    gap
                } else {
                    0
                },
            )
        }),
{
}

/// Only the source's own state is shown: for it the flag becomes what the state is, for any other
/// connection nothing changes; the counters never do.
pub proof fn only_the_sources_state_is_shown(id: u64, other: u64, connected: bool, stats: RtcStats)
    requires
        id != other,
    ensures
        shown_state(id, id, connected, stats).connected == connected,
        shown_state(id, other, connected, stats) == stats,
        shown_state(id, id, connected, stats).packets == stats.packets,
        shown_state(id, id, connected, stats).lost == stats.lost,
        shown_state(id, id, connected, stats).fec_recovered == stats.fec_recovered,
        shown_state(id, id, connected, stats).plc_frames == stats.plc_frames,
        shown_state(id, id, connected, stats).decode_errors == stats.decode_errors,
{
}

/// With the first packet of a track all counters are zero and the connection is shown as connected,
/// whatever they were.
pub proof fn counters_start_over(v: ReceiverView, seq: u16, empty: bool, active: u64, stats: RtcStats)
    requires
        !v.claimed,
        v.expected is None,
    ensures
        v.counted(seq, empty, active, stats) == (RtcStats {
            packets: 0,
            lost: 0,
            fec_recovered: 0,
            plc_frames: 0,
            decode_errors: 0,
            connected: true,
        }),
        !no_stats().connected,
{
}

/// Opus is decoded at 48 kHz, in frames of up to 120 ms and 20 ms if nothing is known.
pub proof fn opus_runs_at_48_khz()
    ensures
        OPUS_RATE == 48_000,
        1000 * MAX_FRAME == 120 * OPUS_RATE,
        1000 * DEFAULT_FRAME == 20 * OPUS_RATE,
{
}

} // verus!
