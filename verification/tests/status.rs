use couchmic::i18n::{Device, Lang, Texts};
use couchmic::status::{
    path_label, stats, tooltip, tray_state, Buffer, Counts, Program, Shown, StatsWatch,
    TroubleWatch, TROUBLE_SHOWN,
};
use couchmic::tray::TrayState;
use couchmic::webrtc_rx::RtcStats;
use serde_json::Value;

#[test]
fn trouble_shows_for_a_minute() {
    let mut w = TroubleWatch::new();
    assert!(!w.look(3, 0, 1, 10), "the first look compares with nothing");
    assert!(!w.look(3, 0, 1, 20));
    assert!(w.look(4, 0, 1, 30));
    assert!(w.look(4, 0, 1, 29 + TROUBLE_SHOWN));
    assert!(!w.look(4, 0, 1, 30 + TROUBLE_SHOWN));
    assert!(!w.look(9, 9, 0, 31 + TROUBLE_SHOWN), "nobody is connected");
    assert!(w.look(9, 10, 1, 32 + TROUBLE_SHOWN), "a lost packet");
}

#[test]
fn counters_are_logged_while_something_happens() {
    let counts = |n: u64| Counts { pcm_frames: n, rtc_packets: 0, underruns: 0, dropped: 0 };
    let mut w = StatsWatch::new();
    assert!(!w.look(counts(0), 0));
    assert!(!w.look(counts(0), 0));
    assert!(w.look(counts(1), 0), "something changed");
    assert!(!w.look(counts(1), 0));
    assert!(w.look(counts(1), 2), "somebody is connected");
}

#[test]
fn tray_shows_path_and_numbers() {
    let texts = Texts::new(Lang::En);
    let n = Shown { buffered: "41", target: "40", loss: "1.5", underruns: 2 };
    let idle = tray_state(0, Device::IPad, true, true);
    assert_eq!(idle, TrayState::Idle);
    assert_eq!(
        tooltip(&texts, &idle, "CABLE Input", true, &n),
        "CouchMic: waiting for a connection\nOutput: CABLE Input\nMicrophone switching: on"
    );
    let on = tray_state(1, Device::IPad, true, false);
    assert_eq!(
        tooltip(&texts, &on, "CABLE Input", true, &n),
        "WebRTC/Opus\nBuffer 41 ms (target 40), loss 1.5 %, underruns 2"
    );
    assert_eq!(path_label(false), "PCM");
}

#[test]
fn report_has_the_documented_members() {
    let v = stats(
        Program {
            version: "0.1.0",
            pid: 1234,
            device: "CABLE Input \"VB\"",
            clients: 1,
            mic_switched: true,
            switching_enabled: false,
            uptime_s: 3600,
        },
        Buffer {
            frames_received: 12_000,
            samples_received: u64::MAX,
            underruns: 1,
            dropped_samples: 2,
            buffered_ms: Value::from(41.25),
            target_ms: Value::from(40.0),
            ratio: Value::from(1.0002),
            input_rate: 44_100,
            output_rate: 48_000,
        },
        RtcStats {
            packets: 5,
            lost: 6,
            fec_recovered: 7,
            plc_frames: 8,
            decode_errors: 9,
            connected: true,
        },
    );
    let expected: Value = serde_json::from_str(
        r#"{"version":"0.1.0","pid":1234,"device":"CABLE Input \"VB\"","clients":1,
            "mic_switched":true,"switching_enabled":false,"uptime_s":3600,
            "frames_received":12000,"samples_received":18446744073709551615,"underruns":1,
            "dropped_samples":2,"buffered_ms":41.25,"target_ms":40.0,"ratio":1.0002,
            "input_rate":44100,"output_rate":48000,
            "rtc":{"connected":true,"packets":5,"lost":6,"fec_recovered":7,"plc_frames":8,
                   "decode_errors":9}}"#,
    )
    .unwrap();
    assert_eq!(v, expected);
}
