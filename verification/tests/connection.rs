use couchmic::connection::{BlockStep, Connection, MessageStep, TEXT_MAX};
use couchmic::control::{Control, CLIENT_LOG_BURST, CLIENT_LOG_WINDOW};
use couchmic::i18n::Device;

fn block(rate: u32, channels: u16, seq: u16, samples: &[i16]) -> Vec<u8> {
    let mut b = Vec::new();
    b.extend_from_slice(&rate.to_le_bytes());
    b.extend_from_slice(&channels.to_le_bytes());
    b.extend_from_slice(&seq.to_le_bytes());
    for s in samples {
        b.extend_from_slice(&s.to_le_bytes());
    }
    b
}

fn text(c: &mut Connection, t: &str, now: u64) -> MessageStep {
    c.on_text(t, now).unwrap()
}

#[test]
fn first_block_joins_and_takes_over() {
    let mut active = 7;
    let mut c = Connection::new(3, 0);
    match c.on_binary(&block(48_000, 1, 65_535, &[1, -2, 3]), &mut active) {
        BlockStep::Accepted { joined, play: Some(p) } => {
            assert!(joined);
            assert_eq!((p.rate, p.samples), (48_000, vec![1, -2, 3]));
            assert_eq!(p.took_over, Some(7));
            assert_eq!(p.gap_after, None);
        }
        other => panic!("{other:?}"),
    }
    assert_eq!(active, 3);
    // The number after the largest is 0.
    match c.on_binary(&block(48_000, 1, 0, &[4]), &mut active) {
        BlockStep::Accepted { joined, play: Some(p) } => {
            assert!(!joined);
            assert_eq!((p.samples, p.took_over, p.gap_after), (vec![4], None, None));
        }
        other => panic!("{other:?}"),
    }
    match c.on_binary(&block(48_000, 1, 5, &[4]), &mut active) {
        BlockStep::Accepted { play: Some(p), .. } => assert_eq!(p.gap_after, Some(0)),
        other => panic!("{other:?}"),
    }
}

#[test]
fn superseded_connection_plays_nothing_until_the_source_is_free() {
    let mut active = 0;
    let mut ipad = Connection::new(1, 0);
    let mut iphone = Connection::new(2, 0);
    let b = block(48_000, 1, 1, &[5]);
    assert!(matches!(ipad.on_binary(&b, &mut active), BlockStep::Accepted { play: Some(_), .. }));
    assert!(matches!(iphone.on_binary(&b, &mut active), BlockStep::Accepted { play: Some(_), .. }));
    assert_eq!(active, 2);
    assert!(matches!(
        ipad.on_binary(&b, &mut active),
        BlockStep::Accepted { joined: false, play: None }
    ));
    let end = ipad.on_close(&mut active);
    assert!(!end.released && end.left);
    assert_eq!(active, 2, "a connection that is not the source ends without effect");
    let end = iphone.on_close(&mut active);
    assert!(end.released && end.left && end.warn.is_none());
    assert_eq!(active, 0);
    assert!(matches!(ipad.on_binary(&b, &mut active), BlockStep::Accepted { play: Some(_), .. }));
    assert_eq!(active, 1);
}

#[test]
fn invalid_blocks_change_nothing() {
    let mut active = 9;
    let mut c = Connection::new(1, 0);
    assert!(matches!(c.on_binary(&[0; 7], &mut active), BlockStep::Ignored));
    let bad = [
        block(7_999, 1, 0, &[0]),
        block(192_001, 1, 0, &[0]),
        block(48_000, 0, 0, &[0]),
        block(48_000, 9, 0, &[0]),
        block(48_000, 1, 0, &vec![0; 4801]),
    ];
    for (i, b) in bad.iter().enumerate() {
        match c.on_binary(b, &mut active) {
            BlockStep::Rejected { first, rate_changed, .. } => {
                assert_eq!(first, i == 0);
                assert!(!rate_changed);
            }
            other => panic!("{other:?}"),
        }
    }
    assert_eq!(active, 9);
    let end = c.on_close(&mut active);
    assert!(!end.left && !end.released);
    assert_eq!(end.warn, Some((5, 0)));
}

#[test]
fn longest_block_and_limits_are_accepted() {
    for (rate, channels, n) in [(48_000, 1, 4800), (8_000, 8, 800 * 8), (192_000, 2, 38_400)] {
        let mut active = 0;
        let mut c = Connection::new(1, 0);
        match c.on_binary(&block(rate, channels, 0, &vec![1; n]), &mut active) {
            BlockStep::Accepted { play: Some(p), .. } => {
                assert_eq!(p.samples.len(), n / channels as usize)
            }
            other => panic!("{other:?}"),
        }
    }
}

#[test]
fn rate_is_fixed_after_the_first_block() {
    let mut active = 0;
    let mut c = Connection::new(1, 0);
    c.on_binary(&block(44_100, 1, 0, &[1]), &mut active);
    match c.on_binary(&block(48_000, 1, 1, &[1]), &mut active) {
        BlockStep::Rejected { first, header, frames, rate_changed } => {
            assert!(first && rate_changed);
            assert_eq!((header.rate, header.channels, header.seq), (48_000, 1, 1));
            assert_eq!(frames, 1);
        }
        other => panic!("{other:?}"),
    }
    assert!(matches!(
        c.on_binary(&block(44_100, 1, 2, &[1]), &mut active),
        BlockStep::Accepted { play: Some(_), .. }
    ));
    // One dropped block is not worth a warning at the end.
    assert_eq!(c.on_close(&mut active).warn, None);
}

#[test]
fn only_an_offer_joins() {
    let mut c = Connection::new(1, 0);
    assert!(!text(&mut c, r#"{"type":"hello","device":"iphone","ua":"Safari"}"#, 1).joined);
    assert_eq!(c.device(), Device::IPhone);
    assert!(!text(&mut c, r#"{"type":"ping"}"#, 1).joined);
    let s = text(&mut c, r#"{"type":"offer","sdp":"v=0"}"#, 1);
    assert!(s.joined && s.line.is_none());
    assert!(!text(&mut c, r#"{"type":"offer","sdp":"v=0"}"#, 1).joined);
    let mut active = 4;
    let end = c.on_close(&mut active);
    assert!(end.left && !end.released);
    assert_eq!(active, 4, "an offer alone does not take over");
}

#[test]
fn hello_and_log_go_into_the_log() {
    let mut c = Connection::new(1, 0);
    let s = text(&mut c, r#"{"type":"hello","ua":"a\nb"}"#, 0);
    assert_eq!(s.line.as_deref(), Some("ua=a\\nb"));
    assert!(matches!(s.control, Control::Hello { device: Device::Other }));
    let lines = (0..30)
        .filter(|_| text(&mut c, r#"{"type":"log","ev":"x"}"#, 0).line.is_some())
        .count();
    assert_eq!(lines, CLIENT_LOG_BURST as usize);
    let s = text(&mut c, r#"{"type":"log","ev":"x"}"#, CLIENT_LOG_WINDOW);
    assert_eq!(s.line.as_deref(), Some("ev=x"));
    assert_eq!(s.dropped, Some(10));
}

#[test]
fn long_texts_and_garbage_are_ignored() {
    let mut active = 0;
    let mut c = Connection::new(1, 0);
    assert!(c.on_text("garbage", 0).is_none());
    let fitting = format!("\"{}\"", "x".repeat(TEXT_MAX - 2));
    assert!(c.on_text(&fitting, 0).is_some());
    let long = format!("\"{}\"", "x".repeat(TEXT_MAX - 1));
    assert!(c.on_text(&long, 0).is_none());
    assert_eq!(c.on_close(&mut active).warn, Some((0, 1)));
}

#[test]
fn silence_ends_a_connection_unless_its_audio_flows() {
    let mut c = Connection::new(5, 0);
    assert!(!c.on_silence(100, 0), "not the source");
    assert!(c.on_silence(100, 5));
    assert!(!c.on_silence(100, 5), "no packet since the last look");
    assert!(c.on_silence(101, 5));
    assert_eq!(c.gate().id(), 5);
}
