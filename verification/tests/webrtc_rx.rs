use couchmic::audio::SourceGate;
use couchmic::webrtc_rx::{
    distance, on_connection_state, opus_codec, PacketRun, PacketStep, Receiver, RtcAction, RtcStats,
    DEFAULT_FRAME, MAX_FRAME, RESYNC_LOSS,
};

/// A track whose next packet has number 1, and which is the source.
fn started(active: &mut u64, stats: &mut RtcStats) -> Receiver {
    let mut r = Receiver::new(SourceGate::new(5));
    let first = r.on_packet(0, false, Some(960), active, stats);
    assert!(matches!(first, PacketStep::Play(_)));
    r
}

fn run(step: PacketStep) -> PacketRun {
    match step {
        PacketStep::Play(run) => run,
        PacketStep::Skip => panic!("skipped"),
    }
}

/// The actions of a run whose decoder calls succeed or fail as given.
fn actions(mut run: PacketRun, ok: bool, stats: &mut RtcStats) -> Vec<RtcAction> {
    let mut all = Vec::new();
    while run.next != RtcAction::Done {
        all.push(run.next);
        run.on_decoded(if ok { Some(960) } else { None }, stats);
    }
    all
}

#[test]
fn first_packet_claims_the_source_and_resets_the_counters() {
    let mut active = 9;
    let mut stats = RtcStats { packets: 10, lost: 3, ..RtcStats::default() };
    let mut r = started(&mut active, &mut stats);
    assert_eq!(active, 5);
    assert_eq!(stats, RtcStats { connected: true, ..RtcStats::default() });
    // Taken over by another connection: nothing is decoded, but the sequence is followed.
    active = 6;
    assert_eq!(r.on_packet(1, false, None, &mut active, &mut stats), PacketStep::Skip);
    assert_eq!(r.on_packet(40, false, None, &mut active, &mut stats), PacketStep::Skip);
    assert_eq!((active, stats.lost), (6, 0));
    active = 0;
    let back = run(r.on_packet(41, false, None, &mut active, &mut stats));
    assert_eq!((back.next, back.loss, stats.lost, active), (RtcAction::Decode, 0, 0, 5));
}

#[test]
fn empty_packets_are_only_counted_in_the_sequence() {
    let mut active = 0;
    let mut stats = RtcStats::default();
    let mut r = started(&mut active, &mut stats);
    assert_eq!(r.on_packet(1, true, None, &mut active, &mut stats), PacketStep::Skip);
    let next = run(r.on_packet(2, false, None, &mut active, &mut stats));
    assert_eq!(next.loss, 0);
}

#[test]
fn small_gaps_are_recovered_and_concealed() {
    let mut active = 0;
    let mut stats = RtcStats::default();
    let mut r = started(&mut active, &mut stats);
    let p = run(r.on_packet(4, false, Some(480), &mut active, &mut stats));
    assert_eq!((p.loss, p.reset, stats.lost), (3, false, 3));
    assert_eq!(
        actions(p, true, &mut stats),
        [
            RtcAction::Recover { frame: 480 },
            RtcAction::Conceal { frame: 480 },
            RtcAction::Conceal { frame: 480 },
            RtcAction::Decode,
        ]
    );
    assert_eq!((stats.fec_recovered, stats.plc_frames, stats.packets), (1, 2, 1));
    // Without FEC every missing packet is concealed, at most five of them.
    let p = run(r.on_packet(14, false, None, &mut active, &mut stats));
    assert_eq!(p.loss, 9);
    let done = actions(p, false, &mut stats);
    assert_eq!(done.len(), 7);
    assert_eq!(done[5], RtcAction::Conceal { frame: 480 });
    assert_eq!((stats.fec_recovered, stats.plc_frames, stats.decode_errors), (1, 2, 1));
}

#[test]
fn large_gaps_resync() {
    let mut active = 0;
    let mut stats = RtcStats::default();
    let mut r = started(&mut active, &mut stats);
    let p = run(r.on_packet(11, false, None, &mut active, &mut stats));
    assert_eq!((p.next, p.loss, p.reset), (RtcAction::Decode, RESYNC_LOSS, true));
    assert_eq!(stats.lost, 10);
    // A late packet is no loss.
    let p = run(r.on_packet(3, false, None, &mut active, &mut stats));
    assert_eq!((p.next, p.loss, p.reset, stats.lost), (RtcAction::Decode, 0, false, 10));
}

#[test]
fn distance_counts_round_the_end() {
    assert_eq!(distance(65_535, 0), 1);
    assert_eq!(distance(0, 65_535), 65_535);
    assert_eq!(distance(7, 7), 0);
    assert_eq!(distance(10, 3), 65_529);
}

#[test]
fn frame_lengths_beyond_the_buffer_are_ignored() {
    let mut active = 0;
    let mut stats = RtcStats::default();
    let mut r = Receiver::new(SourceGate::new(1));
    assert_eq!(run(r.on_packet(0, false, None, &mut active, &mut stats)).frame, DEFAULT_FRAME);
    assert_eq!(run(r.on_packet(1, false, Some(0), &mut active, &mut stats)).frame, 960);
    let max = run(r.on_packet(2, false, Some(MAX_FRAME), &mut active, &mut stats));
    assert_eq!(max.frame, 5760);
    let more = run(r.on_packet(3, false, Some(5761), &mut active, &mut stats));
    assert_eq!(more.frame, 5760);
}

#[test]
fn decode_errors_are_logged_sparsely() {
    let mut stats = RtcStats::default();
    let mut logged = Vec::new();
    for _ in 0..1000 {
        let mut p = PacketRun {
            next: RtcAction::Decode,
            missing: 0,
            frame: 960,
            loss: 0,
            reset: false,
        };
        let d = p.on_decoded(None, &mut stats);
        assert_eq!(d.samples, None);
        logged.extend(d.log_error);
        assert_eq!(p.next, RtcAction::Done);
        assert_eq!(p.on_decoded(Some(3), &mut stats).samples, None);
    }
    assert_eq!(logged, [1, 2, 3, 4, 5, 500, 1000]);
    assert_eq!(stats.decode_errors, 1000);
}

#[test]
fn only_the_source_shows_its_connection_state() {
    let gate = SourceGate::new(2);
    let mut stats = RtcStats { packets: 4, ..RtcStats::default() };
    on_connection_state(&gate, 1, true, &mut stats);
    assert!(!stats.connected);
    on_connection_state(&gate, 2, true, &mut stats);
    assert!(stats.connected && stats.packets == 4);
    on_connection_state(&gate, 2, false, &mut stats);
    assert!(!stats.connected);
}

#[test]
fn opus_is_offered_with_in_band_fec() {
    let c = opus_codec();
    assert_eq!((c.clock_rate, c.channels, c.payload_type), (48_000, 2, 111));
    assert!(c.fmtp.contains("useinbandfec=1"));
}
