use couchmic::control::{
    answer_reply, client_fields, error_reply, join_fields, offer_reply, pong_reply, read_control,
    reply, welcome_reply, Control, LogBudget, CLIENT_FIELD_MAX, CLIENT_LOG_BURST, CLIENT_LOG_WINDOW,
};
use couchmic::i18n::Device;
use serde_json::Value;

fn json(text: &str) -> Value {
    serde_json::from_str(text).unwrap()
}

#[test]
fn client_fields_are_whitelisted_cut_and_escaped() {
    let v: serde_json::Value = serde_json::from_str(
        r#"{"type":"log","ev":"a\nFAKE LINE","secret":"x","ua":"UUUUUUUUUUUUUUUUUUUUUUUUUUUUUUUUUUUUUUUUUUUUUUUUUUUUUUUUUUUUUUUUUUUUUUUUUUUUUUUUUUUUUUUUUUUUUUUUUUUUUUUUUUUUUUUUUUUUUUUUUUUUUUUUUUUUUUUUUUUUUUUUUUUUUUUUUUUUUUUUUUUUUUUUUUUUUUUUUUUUUUUUUUUUUUUUUUUUUUUUUUUUU","running":true,"code":1006}"#,
    )
    .unwrap();
    let f = client_fields(&v);
    assert!(!f.contains('\n'), "no raw newline: {f}");
    assert!(f.contains("ev=a\\nFAKE LINE"), "{f}");
    assert!(!f.contains("secret"));
    assert!(f.contains("running=true") && f.contains("code=1006"));
    let ua = f.split("ua=").nth(1).unwrap().split(' ').next().unwrap();
    assert_eq!(ua.len(), CLIENT_FIELD_MAX);
}

#[test]
fn log_budget_limits_bursts() {
    let mut b = LogBudget::new(0);
    let allowed = (0..100).filter(|_| b.allow(0).allowed).count();
    assert_eq!(allowed, CLIENT_LOG_BURST as usize);
}

#[test]
fn log_budget_starts_over() {
    let mut b = LogBudget::new(5);
    for _ in 0..25 {
        b.allow(5);
    }
    let last = b.allow(5 + CLIENT_LOG_WINDOW - 1);
    assert!(!last.allowed && last.summary.is_none());
    let fresh = b.allow(5 + CLIENT_LOG_WINDOW);
    assert!(fresh.allowed);
    assert_eq!(fresh.summary, Some(6), "what the last window dropped is told once");
    assert_eq!(b.allow(5 + CLIENT_LOG_WINDOW).summary, None);
}

#[test]
fn fields_stand_in_a_fixed_order() {
    let v = json(r#"{"t":1.5,"ua":"x y","ev":"go","muted":false,"vis":null,"ice":[1],"state":{}}"#);
    assert_eq!(client_fields(&v), "ev=go muted=false ua=x y t=1.5");
    assert_eq!(client_fields(&json("{}")), "");
    assert_eq!(client_fields(&json("[1,2]")), "");
    assert_eq!(client_fields(&json(r#"{"ev":""}"#)), "ev=");
}

#[test]
fn fields_are_joined_by_spaces() {
    let texts = [Some("1".to_string()), None, Some("3".to_string())];
    assert_eq!(join_fields(&["a", "b", "c"], &texts), "a=1 c=3");
    assert_eq!(join_fields(&[], &[]), "");
}

#[test]
fn messages_are_told_apart_by_type() {
    match read_control(&json(r#"{"type":"ping","t":123.4}"#)) {
        Control::Ping { t } => assert_eq!(t, json("123.4")),
        other => panic!("{other:?}"),
    }
    match read_control(&json(r#"{"type":"ping"}"#)) {
        Control::Ping { t } => assert_eq!(t, Value::Null),
        other => panic!("{other:?}"),
    }
    match read_control(&json(r#"{"type":"offer","sdp":"v=0"}"#)) {
        Control::Offer { sdp } => assert_eq!(sdp.as_deref(), Some("v=0")),
        other => panic!("{other:?}"),
    }
    match read_control(&json(r#"{"type":"offer","sdp":7}"#)) {
        Control::Offer { sdp } => assert_eq!(sdp, None),
        other => panic!("{other:?}"),
    }
    assert!(matches!(read_control(&json(r#"{"type":"log"}"#)), Control::Log));
    assert!(matches!(
        read_control(&json(r#"{"type":"hello","device":"ipad"}"#)),
        Control::Hello { device: Device::IPad }
    ));
    assert!(matches!(
        read_control(&json(r#"{"type":"hello"}"#)),
        Control::Hello { device: Device::Other }
    ));
    for other in [r#"{"type":"Ping"}"#, r#"{"type":1}"#, "{}", "7", "null"] {
        assert!(matches!(read_control(&json(other)), Control::Unknown), "{other}");
    }
}

#[test]
fn replies_hold_what_they_should() {
    let pong = json(&pong_reply(json("123.5"), json("9.25")));
    assert_eq!(pong["type"], "pong");
    assert_eq!(pong["t"], json("123.5"));
    assert_eq!(pong["server_t"], json("9.25"));
    let welcome = json(&welcome_reply("PC", "0.1.0", json("1")));
    assert_eq!(welcome["type"], "welcome");
    assert_eq!(welcome["host"], "PC");
    assert_eq!(welcome["rtc"], true);
    assert_eq!(welcome["version"], "0.1.0");
    assert_eq!(welcome["server_t"], 1);
    assert_eq!(welcome.as_object().unwrap().len(), 5);
    let sdp = "v=0\r\no=- \"quoted\" \u{1}\\ \u{1f3a4}";
    let answer = json(&answer_reply(sdp));
    assert_eq!(answer["type"], "answer");
    assert_eq!(answer["sdp"], sdp);
    let error = error_reply("no webrtc runtime");
    assert_eq!(error, r#"{"message":"no webrtc runtime","type":"error"}"#);
}

#[test]
fn replies_follow_the_type_of_the_message() {
    let replied = |text: &str| reply(&read_control(&json(text)), "PC", "0.1.0", json("2"));
    let pong = json(&replied(r#"{"type":"ping","t":7}"#).unwrap());
    assert_eq!(pong, json(r#"{"type":"pong","t":7,"server_t":2}"#));
    let pong = json(&replied(r#"{"type":"ping"}"#).unwrap());
    assert_eq!(pong, json(r#"{"type":"pong","t":null,"server_t":2}"#));
    let welcome = json(&replied(r#"{"type":"hello"}"#).unwrap());
    assert_eq!(
        welcome,
        json(r#"{"type":"welcome","host":"PC","rtc":true,"version":"0.1.0","server_t":2}"#)
    );
    for silent in [
        r#"{"type":"log","ev":"x"}"#,
        r#"{"type":"offer"}"#,
        r#"{"type":"offer","sdp":"v=0"}"#,
        r#"{"type":"other"}"#,
        "[]",
    ] {
        assert_eq!(replied(silent), None, "{silent}");
    }
    let answer = json(&offer_reply(&Ok("v=0".into())));
    assert_eq!(answer, json(r#"{"type":"answer","sdp":"v=0"}"#));
    let error = json(&offer_reply(&Err("no".into())));
    assert_eq!(error, json(r#"{"type":"error","message":"no"}"#));
}
