//! One WebSocket connection: which of its messages are played, answered or ignored.
//!
//! A connection only counts as a client (and switches the default microphone) once it sends audio
//! or a WebRTC offer; a silent connection changes nothing. Its first PCM block takes over the audio
//! source; after that it only plays while no other connection has taken over.

use vstd::prelude::*;
use crate::audio;
use crate::audio::SourceGate;
use crate::control;
use crate::control::{Control, ControlView, LogBudget};
use crate::i18n::Device;
use crate::json;
use crate::json::Json;
use crate::limit;
use crate::limit::Window;
use crate::pcm;
use crate::pcm::PcmHeader;
use serde_json::Value;

verus! {

/// Largest WebSocket message and frame. A real PCM block (10 ms at 48 kHz mono) is about 1 KB, an
/// SDP offer a few KB.
pub const WS_MAX_MESSAGE: usize = 65_536;

/// Text (JSON control) messages beyond this are ignored without parsing.
pub const TEXT_MAX: usize = 16_384;

/// A connection with no WebSocket message and no WebRTC audio for this many seconds is closed, so a
/// silent client cannot keep the default microphone switched. The page pings every 2 s.
pub const IDLE_TIMEOUT_SECS: u64 = 120;

// ---------------------------------------------------------------------------------------------
// Types
// ---------------------------------------------------------------------------------------------

/// The state of a connection.
#[derive(Debug)]
pub struct Connection {
    gate: SourceGate,
    last_seq: Option<u16>,
    counted: bool,
    pcm_started: bool,
    pcm_rate: Option<u32>,
    rejected_frames: u64,
    oversized_text: u64,
    budget: LogBudget,
    last_rtc_packets: u64,
    device: Device,
}

/// The state of a connection.
#[verifier::ext_equal]
pub struct ConnView {
    /// Its id; 0 is no connection's.
    pub id: u64,
    /// The sequence number of the last PCM block that was played.
    pub last_seq: Option<u16>,
    /// Whether it counts as a client.
    pub counted: bool,
    /// Whether it has sent a valid PCM block.
    pub pcm_started: bool,
    /// The sample rate of its PCM blocks.
    pub pcm_rate: Option<u32>,
    /// How many PCM blocks were dropped.
    pub rejected_frames: u64,
    /// How many text messages were too long.
    pub oversized_text: u64,
    /// Its log messages.
    pub budget: Window,
    /// The RTC packet count when it was last found alive without messages.
    pub last_rtc_packets: u64,
    /// The device it reported.
    pub device: Device,
}

impl View for Connection {
    type V = ConnView;

    closed spec fn view(&self) -> ConnView {
        ConnView {
            id: self.gate.spec_id(),
            last_seq: self.last_seq,
            counted: self.counted,
            pcm_started: self.pcm_started,
            pcm_rate: self.pcm_rate,
            rejected_frames: self.rejected_frames,
            oversized_text: self.oversized_text,
            budget: self.budget@,
            last_rtc_packets: self.last_rtc_packets,
            device: self.device,
        }
    }
}

/// A PCM block to play.
#[derive(Debug)]
pub struct PcmBlock {
    pub rate: u32,
    pub samples: Vec<i16>,
    /// The other source that this block takes over from.
    pub took_over: Option<u64>,
    /// The sequence number before this block's, if they do not follow each other.
    pub gap_after: Option<u16>,
}

/// A PCM block to play.
#[verifier::ext_equal]
pub struct PcmBlockView {
    pub rate: u32,
    pub samples: Seq<i16>,
    pub took_over: Option<u64>,
    pub gap_after: Option<u16>,
}

impl View for PcmBlock {
    type V = PcmBlockView;

    open spec fn view(&self) -> PcmBlockView {
        PcmBlockView {
            rate: self.rate,
            samples: self.samples@,
            took_over: self.took_over,
            gap_after: self.gap_after,
        }
    }
}

/// What to do with a binary message.
#[derive(Debug)]
pub enum BlockStep {
    /// Too short for a header.
    Ignored,
    /// Dropped; `first` for the first one of the connection, which is logged.
    Rejected { first: bool, header: PcmHeader, frames: usize, rate_changed: bool },
    /// A valid block. `joined` if the connection counts as a client from now on; nothing to play
    /// while another connection is the source.
    Accepted { joined: bool, play: Option<PcmBlock> },
}

/// What to do with a binary message.
#[verifier::ext_equal]
pub enum BlockView {
    Ignored,
    Rejected { first: bool, header: PcmHeader, frames: int, rate_changed: bool },
    Accepted { joined: bool, play: Option<PcmBlockView> },
}

impl View for BlockStep {
    type V = BlockView;

    open spec fn view(&self) -> BlockView {
        match *self {
            BlockStep::Ignored => BlockView::Ignored,
            BlockStep::Rejected { first, header, frames, rate_changed } => BlockView::Rejected {
                first,
                header,
                frames: frames as int,
                rate_changed,
            },
            BlockStep::Accepted { joined, play } => BlockView::Accepted {
                joined,
                play: match play {
                    Some(p) => Some(p@),
                    None => None,
                },
            },
        }
    }
}

/// What to do with a control message.
#[derive(Debug)]
pub struct MessageStep {
    /// Whether the connection counts as a client from now on.
    pub joined: bool,
    /// What the message asks for.
    pub control: Control,
    /// The line that goes into the log.
    pub line: Option<String>,
    /// How many log messages the last window dropped, once it is over.
    pub dropped: Option<u64>,
}

/// What to do with a control message.
#[verifier::ext_equal]
pub struct MessageView {
    pub joined: bool,
    pub control: ControlView,
    pub line: Option<Seq<char>>,
    pub dropped: Option<u64>,
}

impl View for MessageStep {
    type V = MessageView;

    open spec fn view(&self) -> MessageView {
        MessageView {
            joined: self.joined,
            control: self.control@,
            line: match self.line {
                Some(s) => Some(s@),
                None => None,
            },
            dropped: self.dropped,
        }
    }
}

/// What to do when a connection ends.
#[derive(Debug, Clone, Copy, PartialEq, Eq)]
pub struct CloseStep {
    /// It was the source: clear the buffer and the RTC state.
    pub released: bool,
    /// Messages were dropped: how many PCM blocks and how many long texts.
    pub warn: Option<(u64, u64)>,
    /// It counted as a client.
    pub left: bool,
}

// ---------------------------------------------------------------------------------------------
// Behaviour
// ---------------------------------------------------------------------------------------------

impl ConnView {
    /// A new connection.
    pub open spec fn fresh(id: u64, now: u64) -> ConnView {
        ConnView {
            id,
            last_seq: None,
            counted: false,
            pcm_started: false,
            pcm_rate: None,
            rejected_frames: 0,
            oversized_text: 0,
            budget: limit::fresh(now),
            last_rtc_packets: 0,
            device: Device::Other,
        }
    }

    /// Whether the rate differs from the one of the blocks before.
    pub open spec fn rate_changed(self, h: PcmHeader) -> bool {
        self.pcm_rate is Some && self.pcm_rate->0 != h.rate
    }

    /// Whether a block with a header is dropped: its header is invalid, it is too long, or the rate
    /// changed (which would rebuild the resampler each time).
    pub open spec fn rejects(self, b: Seq<u8>) -> bool {
        let h = pcm::header_of(b);
        ||| !pcm::valid_header(h)
        ||| pcm::too_long(pcm::frame_count(b.len() as int, h), h.rate)
        ||| self.rate_changed(h)
    }

    /// Whether a valid block may play: the first one takes over, later ones only play while no other
    /// connection is the source.
    pub open spec fn plays(self, active: u64) -> bool {
        !self.pcm_started || audio::may_play(self.id, active) == self.id
    }

    /// The source after a valid block.
    pub open spec fn source_after(self, active: u64) -> u64 {
        if self.pcm_started {
            audio::may_play(self.id, active)
        } else {
            self.id
        }
    }

    /// The connection after a binary message.
    pub open spec fn after_block(self, b: Seq<u8>, active: u64) -> ConnView {
        let h = pcm::header_of(b);
        if b.len() < pcm::PCM_HEADER {
            self
        } else if self.rejects(b) {
            ConnView { rejected_frames: limit::counted(self.rejected_frames, 1) as u64, ..self }
        } else {
            ConnView {
                pcm_rate: Some(h.rate),
                counted: true,
                pcm_started: true,
                last_seq: if self.plays(active) {
                    Some(h.seq)
                } else {
                    self.last_seq
                },
                ..self
            }
        }
    }

    /// The source after a binary message.
    pub open spec fn active_after_block(self, b: Seq<u8>, active: u64) -> u64 {
        if b.len() < pcm::PCM_HEADER || self.rejects(b) {
            active
        } else {
            self.source_after(active)
        }
    }

    /// What to play of a valid block.
    pub open spec fn played(self, b: Seq<u8>, active: u64) -> PcmBlockView {
        let h = pcm::header_of(b);
        PcmBlockView {
            rate: h.rate,
            samples: pcm::mono_of(b, h.channels),
            took_over: if !self.pcm_started && active != 0 && active != self.id {
                Some(active)
            } else {
                None
            },
            gap_after: match self.last_seq {
                Some(prev) => if h.seq != next_seq(prev) {
                    Some(prev)
                } else {
                    None
                },
                None => None,
            },
        }
    }

    /// What to do with a binary message.
    pub open spec fn block_step(self, b: Seq<u8>, active: u64) -> BlockView {
        let h = pcm::header_of(b);
        if b.len() < pcm::PCM_HEADER {
            BlockView::Ignored
        } else if self.rejects(b) {
            BlockView::Rejected {
                first: self.rejected_frames == 0,
                header: h,
                frames: pcm::frame_count(b.len() as int, h),
                rate_changed: self.rate_changed(h),
            }
        } else {
            BlockView::Accepted {
                joined: !self.counted,
                play: if self.plays(active) {
                    Some(self.played(b, active))
                } else {
                    None
                },
            }
        }
    }

    /// The connection after a control message at `now`.
    pub open spec fn after_message(self, j: Json, now: u64) -> ConnView {
        let c = control::control_of(j);
        ConnView {
            counted: self.counted || c is Offer,
            budget: if c is Log {
                limit::admitted(
                    self.budget,
                    now,
                    control::CLIENT_LOG_WINDOW,
                    control::CLIENT_LOG_BURST,
                )
            } else {
                self.budget
            },
            device: match c {
                ControlView::Hello { device } => device,
                _ => self.device,
            },
            ..self
        }
    }

    /// What to do with a control message at `now`.
    pub open spec fn message_step(self, j: Json, now: u64) -> MessageView {
        let c = control::control_of(j);
        let v = limit::verdict(
            self.budget,
            now,
            control::CLIENT_LOG_WINDOW,
            control::CLIENT_LOG_BURST,
        );
        MessageView {
            joined: !self.counted && c is Offer,
            control: c,
            line: if c is Hello || (c is Log && v.allowed) {
                Some(control::joined(control::log_fields(), control::shown_fields(j)))
            } else {
                None
            },
            dropped: if c is Log {
                v.summary
            } else {
                None
            },
        }
    }

    /// What to do when the connection ends.
    pub open spec fn close_step(self, active: u64) -> CloseStep {
        CloseStep {
            released: active == self.id,
            warn: if self.rejected_frames > 1 || self.oversized_text > 0 {
                Some((self.rejected_frames, self.oversized_text))
            } else {
                None
            },
            left: self.counted,
        }
    }

    /// The connection after a text message that is too long.
    pub open spec fn after_long_text(self) -> ConnView {
        ConnView { oversized_text: limit::counted(self.oversized_text, 1) as u64, ..self }
    }

    /// Whether the connection lives on although no message has come for two minutes: it is the
    /// source and its RTC audio flows.
    pub open spec fn alive(self, packets: u64, active: u64) -> bool {
        active == self.id && packets != self.last_rtc_packets
    }
}

/// The sequence number that follows `n`; after the largest comes 0.
pub open spec fn next_seq(n: u16) -> u16 {
    if n == u16::MAX {
        0
    } else {
        (n + 1) as u16
    }
}

/// The sequence number that follows `n`; after the largest comes 0.
pub fn following(n: u16) -> (r: u16)
    ensures
        r == next_seq(n),
{
    if n == u16::MAX {
        0
    } else {
        n + 1
    }
}

impl Connection {
    /// A connection with this id, from now on.
    pub fn new(id: u64, now: u64) -> (r: Self)
        requires
            id != 0,
        ensures
            r@ == ConnView::fresh(id, now),
    {
        Connection {
            gate: SourceGate::new(id),
            last_seq: None,
            counted: false,
            pcm_started: false,
            pcm_rate: None,
            rejected_frames: 0,
            oversized_text: 0,
            budget: LogBudget::new(now),
            last_rtc_packets: 0,
            device: Device::Other,
        }
    }

    /// The source gate that the audio of this connection goes through.
    pub fn gate(&self) -> (r: SourceGate)
        ensures
            r.spec_id() == self@.id,
    {
        self.gate
    }

    /// The device that the connection reported.
    pub fn device(&self) -> (r: Device)
        ensures
            r == self@.device,
    {
        self.device
    }

    /// Takes a binary message: a PCM block. `active` is the connection that is the source, 0 if
    /// there is none.
    pub fn on_binary(&mut self, b: &[u8], active: &mut u64) -> (r: BlockStep)
        ensures
            final(self)@ == old(self)@.after_block(b@, *old(active)),
            *final(active) == old(self)@.active_after_block(b@, *old(active)),
            r@ == old(self)@.block_step(b@, *old(active)),
            r@ matches BlockView::Accepted { play: Some(p), .. } ==> p.samples == pcm::mono_of(
                b@,
                (b@[4] + 256 * b@[5]) as u16,
            ),
    {
        if b.len() < pcm::PCM_HEADER {
            return BlockStep::Ignored;
        }
        let header = pcm::read_header(b);
        let frames: usize = pcm::frames_in(b.len(), &header);
        let rate_changed = match self.pcm_rate {
            Some(rate) => rate != header.rate,
            None => false,
        };
        if !pcm::header_ok(&header) || pcm::over_limit(frames, header.rate) || rate_changed {
            let first = self.rejected_frames == 0;
            self.rejected_frames = limit::count_up(self.rejected_frames, 1);
            return BlockStep::Rejected { first, header, frames, rate_changed };
        }
        self.pcm_rate = Some(header.rate);
        let joined = !self.counted;
        self.counted = true;
        let mut took_over: Option<u64> = None;
        if !self.pcm_started {
            self.pcm_started = true;
            took_over = self.gate.take_over(active);
        } else if !self.gate.allowed(active) {
            return BlockStep::Accepted { joined, play: None };
        }
        let gap_after: Option<u16> = match self.last_seq {
            Some(prev) => if header.seq != following(prev) {
                Some(prev)
            } else {
                None
            },
            None => None,
        };
        self.last_seq = Some(header.seq);
        let samples = pcm::read_mono(b, header.channels);
        let block = PcmBlock { rate: header.rate, samples, took_over, gap_after };
        BlockStep::Accepted { joined, play: Some(block) }
    }

    /// Takes a text message: a control message, if it is not too long and JSON.
    pub fn on_text(&mut self, t: &str, now: u64) -> (r: Option<MessageStep>)
        ensures
            ({
                let bytes = vstd::utf8::encode_utf8(t@);
                if bytes.len() > TEXT_MAX {
                    &&& r is None
                    &&& final(self)@ == (ConnView {
                        oversized_text: limit::counted(old(self)@.oversized_text, 1) as u64,
                        ..old(self)@
                    })
                    &&& final(self)@ == old(self)@.after_long_text()
                } else {
                    match json::json_text(bytes) {
                        Some(j) => {
                            &&& r is Some
                            &&& r->0@ == old(self)@.message_step(j, now)
                            &&& final(self)@ == old(self)@.after_message(j, now)
                        },
                        None => r is None && final(self)@ == old(self)@,
                    }
                }
            }),
    {
        let bytes = t.as_bytes();
        if bytes.len() > TEXT_MAX {
            self.oversized_text = limit::count_up(self.oversized_text, 1);
            return None;
        }
        match json::parse(bytes) {
            Some(v) => Some(self.on_message(&v, now)),
            None => None,
        }
    }

    /// Takes a control message.
    pub fn on_message(&mut self, v: &Value, now: u64) -> (r: MessageStep)
        ensures
            r@ == old(self)@.message_step(json::json_of(*v), now),
            final(self)@ == old(self)@.after_message(json::json_of(*v), now),
    {
        let control = control::read_control(v);
        let mut joined = false;
        let mut line: Option<String> = None;
        let mut dropped: Option<u64> = None;
        match &control {
            Control::Offer { .. } => {
                joined = !self.counted;
                self.counted = true;
            },
            Control::Log => {
                let verdict = self.budget.allow(now);
                dropped = verdict.summary;
                if verdict.allowed {
                    line = Some(control::client_fields(v));
                }
            },
            Control::Hello { device } => {
                self.device = *device;
                line = Some(control::client_fields(v));
            },
            _ => {},
        }
        MessageStep { joined, control, line, dropped }
    }

    /// No message has come for two minutes; `packets` is the RTC packet count. Returns whether the
    /// connection stays open.
    pub fn on_silence(&mut self, packets: u64, active: u64) -> (r: bool)
        ensures
            r == old(self)@.alive(packets, active),
            final(self)@ == (if r {
                ConnView { last_rtc_packets: packets, ..old(self)@ }
            } else {
                old(self)@
            }),
    {
        if self.gate.is_active(active) && packets != self.last_rtc_packets {
            self.last_rtc_packets = packets;
            true
        } else {
            false
        }
    }

    /// The connection ends.
    pub fn on_close(&self, active: &mut u64) -> (r: CloseStep)
        ensures
            *final(active) == audio::released(self@.id, *old(active)),
            r.released == (*old(active) == self@.id),
            r.warn == (if self@.rejected_frames > 1 || self@.oversized_text > 0 {
                Some((self@.rejected_frames, self@.oversized_text))
            } else {
                None
            }),
            r.left == self@.counted,
            r == self@.close_step(*old(active)),
    {
        let released = self.gate.release(active);
        let warn: Option<(u64, u64)> = if self.rejected_frames > 1 || self.oversized_text > 0 {
            Some((self.rejected_frames, self.oversized_text))
        } else {
            None
        };
        CloseStep { released, warn, left: self.counted }
    }
}

// ---------------------------------------------------------------------------------------------
// Laws
// ---------------------------------------------------------------------------------------------

/// A silent connection changes nothing: binary messages that are too short or dropped, and control
/// messages that are no offer, neither make it a client nor touch the source.
pub proof fn silent_connection_changes_nothing(
    v: ConnView,
    b: Seq<u8>,
    j: Json,
    active: u64,
    now: u64,
)
    requires
        b.len() < pcm::PCM_HEADER || v.rejects(b),
        !(control::control_of(j) is Offer),
    ensures
        v.active_after_block(b, active) == active,
        v.after_block(b, active).counted == v.counted,
        v.after_block(b, active).pcm_started == v.pcm_started,
        !(v.block_step(b, active) is Accepted),
        v.after_message(j, now).counted == v.counted,
        v.after_message(j, now).pcm_started == v.pcm_started,
        !v.message_step(j, now).joined,
{
}

/// A connection joins the clients exactly when it begins to count as one, and it never stops
/// counting while it is open; so it joins at most once.
pub proof fn joins_at_most_once(v: ConnView, b: Seq<u8>, j: Json, active: u64, now: u64)
    ensures
        v.block_step(b, active) matches BlockView::Accepted { joined, .. } ==> joined
            == !v.counted,
        v.after_block(b, active).counted == (v.counted || v.block_step(b, active) is Accepted),
        v.message_step(j, now).joined == (!v.counted && v.after_message(j, now).counted),
        v.counted ==> v.after_message(j, now).counted,
{
}

/// The first valid block of a connection is played and makes it the source, whoever was before.
pub proof fn first_block_takes_over(v: ConnView, b: Seq<u8>, active: u64)
    requires
        !v.pcm_started,
        b.len() >= pcm::PCM_HEADER,
        !v.rejects(b),
    ensures
        v.active_after_block(b, active) == v.id,
        v.block_step(b, active) matches BlockView::Accepted { play, .. } && play is Some,
{
}

/// A connection that another one has taken over from plays nothing and leaves the source as it is.
pub proof fn superseded_connection_is_muted(v: ConnView, b: Seq<u8>, active: u64)
    requires
        v.pcm_started,
        active != 0,
        active != v.id,
    ensures
        v.active_after_block(b, active) == active,
        v.block_step(b, active) matches BlockView::Accepted { play, .. } ==> play is None,
{
}

/// When the source is free, the next valid block of any connection is played.
pub proof fn next_block_continues(v: ConnView, b: Seq<u8>)
    requires
        b.len() >= pcm::PCM_HEADER,
        !v.rejects(b),
    ensures
        v.active_after_block(b, 0) == v.id,
        v.block_step(b, 0) matches BlockView::Accepted { play, .. } && play is Some,
{
}

/// The sample rate is fixed for a connection after its first valid block: it never changes again,
/// and every block that is played has it.
pub proof fn rate_is_fixed(v: ConnView, b: Seq<u8>, j: Json, active: u64, now: u64)
    requires
        v.pcm_rate is Some,
    ensures
        v.after_block(b, active).pcm_rate == v.pcm_rate,
        v.after_message(j, now).pcm_rate == v.pcm_rate,
        v.block_step(b, active) matches BlockView::Accepted { play, .. } ==> play is Some
            ==> play->0.rate == v.pcm_rate->0,
{
}

/// Whatever is played has a valid rate, and at most 100 ms of samples (and one more, where the last
/// frame is cut short).
pub proof fn played_blocks_are_short(v: ConnView, b: Seq<u8>, active: u64)
    ensures
        v.block_step(b, active) matches BlockView::Accepted { play, .. } ==> play is Some ==> {
            &&& pcm::PCM_RATE_MIN <= play->0.rate <= pcm::PCM_RATE_MAX
            &&& play->0.samples.len() <= play->0.rate * pcm::PCM_MAX_FRAME_MS / 1000 + 1
        },
{
    if v.block_step(b, active) is Accepted {
        let h = pcm::header_of(b);
        let len = b.len() - pcm::PCM_HEADER;
        let ch = h.channels as int;
        assert(len / 2 / ch == len / (2 * ch)) by {
            vstd::arithmetic::div_mod::lemma_div_denominator(len, 2, ch);
        }
        if len >= 2 {
            vstd::arithmetic::div_mod::lemma_div_is_ordered(len - 2, len, 2 * ch);
            vstd::arithmetic::div_mod::lemma_div_pos_is_pos(len - 2, 2 * ch);
        }
    }
}

/// After two minutes without a message only a connection whose own RTC audio has moved on stays; if
/// it then stands still for two more, the connection is closed too.
pub proof fn idle_connections_are_closed(v: ConnView, packets: u64, active: u64)
    ensures
        v.alive(packets, active) ==> active == v.id && packets != v.last_rtc_packets,
        !(ConnView { last_rtc_packets: packets, ..v }).alive(packets, active),
{
}

/// Whatever is played comes from the source: a connection whose block is played is the source from
/// then on, so no two connections ever play at the same time.
pub proof fn what_plays_is_the_source(v: ConnView, b: Seq<u8>, active: u64)
    ensures
        v.block_step(b, active) matches BlockView::Accepted { play, .. } ==> play is Some
            ==> v.active_after_block(b, active) == v.id,
{
}

/// Something that happens on a connection.
pub enum Event {
    /// A binary message, while this connection is the source.
    Block { bytes: Seq<u8>, active: u64 },
    /// A control message at this time.
    Message { json: Json, now: u64 },
    /// Two minutes without a message.
    Silence { packets: u64, active: u64 },
}

impl ConnView {
    /// The connection after an event.
    pub open spec fn after_event(self, e: Event) -> ConnView {
        match e {
            Event::Block { bytes, active } => self.after_block(bytes, active),
            Event::Message { json, now } => self.after_message(json, now),
            Event::Silence { packets, active } => if self.alive(packets, active) {
                ConnView { last_rtc_packets: packets, ..self }
            } else {
                self
            },
        }
    }

    /// Whether the connection joins the clients with an event.
    pub open spec fn joins_with(self, e: Event) -> bool {
        match e {
            Event::Block { bytes, active } => match self.block_step(bytes, active) {
                BlockView::Accepted { joined, .. } => joined,
                _ => false,
            },
            Event::Message { json, now } => self.message_step(json, now).joined,
            Event::Silence { .. } => false,
        }
    }

    /// The connection after a row of events.
    pub open spec fn after_all(self, events: Seq<Event>) -> ConnView
        decreases events.len(),
    {
        if events.len() == 0 {
            self
        } else {
            self.after_all(events.drop_last()).after_event(events.last())
        }
    }

    /// How often the connection joins the clients in a row of events.
    pub open spec fn joins_in(self, events: Seq<Event>) -> nat
        decreases events.len(),
    {
        if events.len() == 0 {
            0
        } else {
            self.joins_in(events.drop_last()) + (if self.after_all(
                events.drop_last(),
            ).joins_with(events.last()) {
                1nat
            } else {
                0
            })
        }
    }
}

/// However a connection goes, it has joined the clients once if it leaves them when it ends, and
/// never if it does not; so every join is followed by one leave.
pub proof fn every_join_has_its_leave(id: u64, now: u64, events: Seq<Event>)
    ensures
        ConnView::fresh(id, now).joins_in(events) == if ConnView::fresh(id, now).after_all(
            events,
        ).counted {
            1nat
        } else {
            0
        },
    decreases events.len(),
{
    if events.len() > 0 {
        every_join_has_its_leave(id, now, events.drop_last());
    }
}

/// What is played of a block is its first channel: with `c` channels the `k`-th sample is the one at
/// byte `8 + 2 c k`, low byte first, for every `k` whose two bytes are in the block; and it is played
/// at the rate that the block names.
pub proof fn the_first_channel_is_played(v: ConnView, b: Seq<u8>, active: u64, k: int)
    requires
        k >= 0,
    ensures
        v.block_step(b, active) matches BlockView::Accepted { play: Some(p), .. } ==> {
            let c = b[4] + 256 * b[5];
            &&& b.len() >= 8
            &&& 1 <= c <= 8
            &&& k < p.samples.len() <==> 8 + 2 * c * k + 1 < b.len()
            &&& k < p.samples.len() ==> (p.samples[k] - b[8 + 2 * c * k] - 256 * b[8 + 2 * c * k
                + 1]) % 0x1_0000 == 0
            &&& p.rate == b[0] + 256 * b[1] + 65_536 * b[2] + 16_777_216 * b[3]
        },
{
    if let BlockView::Accepted { play: Some(p), .. } = v.block_step(b, active) {
        let h = pcm::header_of(b);
        pcm::headers_are_read_low_first(b);
        pcm::the_first_channel_is_taken(b, h.channels, k);
    }
}

/// However channels are interleaved into a block, exactly the first one is played.
pub proof fn interleaved_blocks_play_the_first_channel(
    v: ConnView,
    h: PcmHeader,
    frames: Seq<Seq<i16>>,
    active: u64,
)
    requires
        8_000 <= h.rate <= 192_000,
        1 <= h.channels <= 8,
        10 * frames.len() <= h.rate,
        v.pcm_rate is None || v.pcm_rate == Some(h.rate),
        !v.pcm_started || active == 0 || active == v.id,
    ensures
        v.block_step(pcm::interleaved(h, frames), active) matches BlockView::Accepted {
            play: Some(p),
            ..
        } && p.samples == Seq::new(frames.len(), |k: int| frames[k][0]) && p.rate == h.rate,
{
    let b = pcm::interleaved(h, frames);
    assert(0 <= 2 * h.channels * frames.len()) by (nonlinear_arith)
        requires
            h.channels >= 1,
    ;
    pcm::interleaved_blocks_give_the_first_channel(h, frames);
    pcm::frames_fill_the_block(b.len() as int, h, frames.len() as int, h.rate);
    assert(pcm::first_channel(frames) =~= Seq::new(frames.len(), |k: int| frames[k][0]));
}

/// Two blocks of the same length with the same header and the same first channel play the same
/// samples, whatever the other channels hold.
pub proof fn other_channels_make_no_difference(v: ConnView, a: Seq<u8>, b: Seq<u8>, active: u64)
    requires
        a.len() == b.len(),
        a.len() >= 8,
        a.take(8) == b.take(8),
        forall|k: int|
            #![trigger a[8 + 2 * (a[4] + 256 * a[5]) * k]]
            k >= 0 && 8 + 2 * (a[4] + 256 * a[5]) * k + 1 < a.len() ==> {
                &&& a[8 + 2 * (a[4] + 256 * a[5]) * k] == b[8 + 2 * (a[4] + 256 * a[5]) * k]
                &&& a[8 + 2 * (a[4] + 256 * a[5]) * k + 1] == b[8 + 2 * (a[4] + 256 * a[5]) * k + 1]
            },
    ensures
        v.block_step(a, active) == v.block_step(b, active),
{
    assert forall|i: int| 0 <= i < 8 implies a[i] == b[i] by {
        assert(a.take(8)[i] == a[i] && b.take(8)[i] == b[i]);
    }
    let h = pcm::header_of(a);
    assert(pcm::header_of(b) == h);
    if !v.rejects(a) {
        let c = h.channels;
        assert forall|k: int| 0 <= k < pcm::mono_count(a.len() - pcm::PCM_HEADER, c) implies {
            &&& #[trigger] a[pcm::PCM_HEADER + 2 * c * k] == b[pcm::PCM_HEADER + 2 * c * k]
            &&& a[pcm::PCM_HEADER + 2 * c * k + 1] == b[pcm::PCM_HEADER + 2 * c * k + 1]
        } by {
            pcm::the_first_channel_is_taken(a, c, k);
            assert(a[8 + 2 * (a[4] + 256 * a[5]) * k] == b[8 + 2 * (a[4] + 256 * a[5]) * k]);
        }
        pcm::only_the_first_channel_is_heard(a, b, c);
    }
}

/// Which blocks are accepted: those with a header, a rate from 8 to 192 kHz, one to eight channels, at
/// most a tenth of a second of frames, and the rate of the blocks before. One without a header is
/// ignored, any other dropped.
pub proof fn which_blocks_are_accepted(v: ConnView, b: Seq<u8>, active: u64)
    ensures
        v.block_step(b, active) is Ignored <==> b.len() < 8,
        b.len() >= 8 ==> {
            let rate = b[0] + 256 * b[1] + 65_536 * b[2] + 16_777_216 * b[3];
            let channels = b[4] + 256 * b[5];
            let frames = (b.len() - 8) / 2 / channels;
            v.block_step(b, active) is Accepted <==> {
                &&& 8_000 <= rate <= 192_000
                &&& 1 <= channels <= 8
                &&& 10 * frames <= rate
                &&& v.pcm_rate is None || v.pcm_rate->0 == rate
            }
        },
{
    if b.len() >= 8 {
        let h = pcm::header_of(b);
        pcm::headers_are_read_low_first(b);
        if h.channels >= 1 {
            pcm::frames_fill_the_block(
                b.len() as int,
                h,
                pcm::frame_count(b.len() as int, h),
                h.rate,
            );
        }
    }
}

/// What an accepted block says besides its samples: the source it takes over from, if it is the first
/// block and another connection was the source; and the number of the last block played before, if
/// this one's does not follow it.
pub proof fn takeovers_and_gaps_are_told(v: ConnView, b: Seq<u8>, active: u64)
    ensures
        v.block_step(b, active) matches BlockView::Accepted { joined, play } ==> {
            let seq = b[6] + 256 * b[7];
            &&& joined == !v.counted
            &&& play is Some <==> !v.pcm_started || active == 0 || active == v.id
            &&& play matches Some(p) ==> {
                &&& p.took_over == (if !v.pcm_started && active != 0 && active != v.id {
                    Some(active)
                } else {
                    None
                })
                &&& p.gap_after is Some <==> v.last_seq is Some && seq != (v.last_seq->0 + 1)
                    % 0x1_0000
                &&& p.gap_after is Some ==> p.gap_after == v.last_seq
            }
        },
{
}

/// What a block leaves behind. An accepted one fixes the rate, makes the connection a client that has
/// begun to send, and is the last one played if it is played; a dropped one is only counted; one
/// without a header leaves nothing. Nothing else of the connection changes.
pub proof fn what_a_block_leaves_behind(v: ConnView, b: Seq<u8>, active: u64)
    ensures
        ({
            let w = v.after_block(b, active);
            &&& w.id == v.id
            &&& w.oversized_text == v.oversized_text
            &&& w.budget == v.budget
            &&& w.last_rtc_packets == v.last_rtc_packets
            &&& w.device == v.device
            &&& v.block_step(b, active) is Ignored ==> w == v
            &&& v.block_step(b, active) is Rejected ==> {
                &&& w.rejected_frames == limit::counted(v.rejected_frames, 1)
                &&& w.last_seq == v.last_seq
                &&& w.counted == v.counted
                &&& w.pcm_started == v.pcm_started
                &&& w.pcm_rate == v.pcm_rate
            }
            &&& v.block_step(b, active) matches BlockView::Accepted { joined, play } ==> {
                &&& w.rejected_frames == v.rejected_frames
                &&& w.counted
                &&& w.pcm_started
                &&& w.pcm_rate is Some
                &&& w.pcm_rate->0 == b[0] + 256 * b[1] + 65_536 * b[2] + 16_777_216 * b[3]
                &&& play is Some ==> w.last_seq is Some && w.last_seq->0 == b[6] + 256 * b[7]
                &&& play is None ==> w.last_seq == v.last_seq
            }
        }),
        v.block_step(b, active) matches BlockView::Rejected { first, header, frames, rate_changed }
            ==> {
            &&& first == (v.rejected_frames == 0)
            &&& header.rate == b[0] + 256 * b[1] + 65_536 * b[2] + 16_777_216 * b[3]
            &&& header.channels == b[4] + 256 * b[5]
            &&& header.seq == b[6] + 256 * b[7]
            &&& frames == pcm::frame_count(b.len() as int, header)
            &&& rate_changed == (v.pcm_rate is Some && v.pcm_rate->0 != header.rate)
        },
{
}

/// The source after a block: the connection's own, if the block is accepted and it may play; as before
/// in any other case.
pub proof fn who_is_the_source_after_a_block(v: ConnView, b: Seq<u8>, active: u64)
    ensures
        v.block_step(b, active) is Accepted && (!v.pcm_started || active == 0)
            ==> v.active_after_block(b, active) == v.id,
        !(v.block_step(b, active) is Accepted) || (v.pcm_started && active != 0)
            ==> v.active_after_block(b, active) == active,
{
}

/// What a control message leaves behind: an offer makes the connection a client, a greeting names its
/// device, a log message uses up some of what it may log. Nothing else changes.
pub proof fn what_a_message_leaves_behind(v: ConnView, j: Json, now: u64)
    ensures
        ({
            let c = control::control_of(j);
            let w = v.after_message(j, now);
            &&& w.counted == (v.counted || c is Offer)
            &&& c matches ControlView::Hello { device } ==> w.device == device
            &&& !(c is Hello) ==> w.device == v.device
            &&& !(c is Log) ==> w.budget == v.budget
            &&& c is Log && v.budget.start <= now && now - v.budget.start < 10_000_000_000
                && v.budget.used < 20 ==> w.budget == (Window {
                used: (v.budget.used + 1) as u32,
                ..v.budget
            })
            &&& w.id == v.id
            &&& w.last_seq == v.last_seq
            &&& w.pcm_started == v.pcm_started
            &&& w.pcm_rate == v.pcm_rate
            &&& w.rejected_frames == v.rejected_frames
            &&& w.oversized_text == v.oversized_text
            &&& w.last_rtc_packets == v.last_rtc_packets
        }),
{
}

/// What a control message leads to: its fields go into the log for a greeting always, for a log message
/// while fewer than the allowed number came in the window, and for nothing else; only a log message
/// reports what was dropped before.
pub proof fn what_a_message_leads_to(v: ConnView, j: Json, now: u64)
    ensures
        ({
            let c = control::control_of(j);
            let s = v.message_step(j, now);
            let line = control::joined(control::log_fields(), control::shown_fields(j));
            &&& s.control == c
            &&& s.joined == (c is Offer && !v.counted)
            &&& c is Hello ==> s.line == Some(line) && s.dropped is None
            &&& c is Log && v.budget.start <= now && now - v.budget.start < 10_000_000_000 ==> {
                &&& v.budget.used < 20 ==> s.line == Some(line)
                &&& v.budget.used >= 20 ==> s.line is None
                &&& s.dropped is None
            }
            &&& c is Log && v.budget.start <= now && now - v.budget.start >= 10_000_000_000 ==> {
                &&& s.line == Some(line)
                &&& v.budget.dropped > 0 ==> s.dropped == Some(v.budget.dropped)
                &&& v.budget.dropped == 0 ==> s.dropped is None
            }
            &&& !(c is Hello) && !(c is Log) ==> s.line is None && s.dropped is None
        }),
{
}

/// A connection stays open without messages exactly if it is the source and its RTC packet count has
/// changed.
pub proof fn who_stays_without_messages(v: ConnView, packets: u64, active: u64)
    ensures
        active == v.id && packets != v.last_rtc_packets ==> v.alive(packets, active),
        active != v.id || packets == v.last_rtc_packets ==> !v.alive(packets, active),
{
}

/// A new connection is no client, has sent nothing and may log as much as any.
pub proof fn a_new_connection_is_silent(id: u64, now: u64)
    ensures
        ({
            let v = ConnView::fresh(id, now);
            &&& v.id == id
            &&& !v.counted
            &&& !v.pcm_started
            &&& v.last_seq is None
            &&& v.pcm_rate is None
            &&& v.rejected_frames == 0
            &&& v.oversized_text == 0
            &&& v.last_rtc_packets == 0
            &&& v.device == Device::Other
            &&& v.budget == (Window { start: now, used: 0, dropped: 0 })
        }),
        TEXT_MAX == 16_384,
        WS_MAX_MESSAGE == 65_536,
        IDLE_TIMEOUT_SECS == 120,
{
}

/// When a connection ends, the source is released exactly if it was the source, it leaves the clients
/// exactly if it was one, and a warning is due if more than one block or any text was dropped, with
/// both numbers.
pub proof fn what_the_end_of_a_connection_does(v: ConnView, active: u64)
    ensures
        v.close_step(active).released <==> active == v.id,
        v.close_step(active).left <==> v.counted,
        v.close_step(active).warn is Some <==> v.rejected_frames >= 2 || v.oversized_text >= 1,
        v.close_step(active).warn is Some ==> v.close_step(active).warn == Some(
            (v.rejected_frames, v.oversized_text),
        ),
{
}

/// Every text that is too long is counted, and does nothing else.
pub proof fn long_texts_are_counted(v: ConnView)
    requires
        v.oversized_text < u64::MAX,
    ensures
        v.after_long_text().oversized_text == v.oversized_text + 1,
        v.after_long_text() == (ConnView {
            oversized_text: v.after_long_text().oversized_text,
            ..v
        }),
{
}

} // verus!
