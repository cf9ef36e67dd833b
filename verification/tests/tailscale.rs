use couchmic::tailscale::{parse_tailscale_status, read_status};

#[test]
fn parses_tailscale_status() {
    let json = br#"{"Self":{"DNSName":"pc.tail1234.ts.net.","UserID":42},
            "User":{"42":{"LoginName":"me@example.com"},"7":{"LoginName":"other@x.com"}}}"#;
    let t = parse_tailscale_status(json).unwrap();
    assert_eq!(t.host, "pc.tail1234.ts.net");
    assert_eq!(t.login.as_deref(), Some("me@example.com"));
    let no_user = br#"{"Self":{"DNSName":"pc.tail1234.ts.net.","UserID":42},"User":{}}"#;
    assert_eq!(parse_tailscale_status(no_user).unwrap().login, None);
    assert!(parse_tailscale_status(br#"{"Self":{"DNSName":""}}"#).is_none());
    assert!(parse_tailscale_status(b"garbage").is_none());
}

#[test]
fn incomplete_statuses() {
    let read = |text: &str| read_status(&serde_json::from_str(text).unwrap());
    assert!(read("{}").is_none());
    assert!(read(r#"{"Self":{}}"#).is_none());
    assert!(read(r#"{"Self":{"DNSName":7}}"#).is_none());
    assert!(read(r#"{"Self":{"DNSName":"..."}}"#).is_none());
    let t = read(r#"{"Self":{"DNSName":"pc.x.."}}"#).unwrap();
    assert_eq!((t.host.as_str(), t.login), ("pc.x", None));
    for id in ["-1", "4.5", "\"42\"", "null"] {
        let text = format!(
            r#"{{"Self":{{"DNSName":"pc","UserID":{id}}},"User":{{"42":{{"LoginName":"a"}}}}}}"#
        );
        assert_eq!(read(&text).unwrap().login, None, "{id}");
    }
    let max = u64::MAX;
    let text = format!(
        r#"{{"Self":{{"DNSName":"pc","UserID":{max}}},"User":{{"{max}":{{"LoginName":"a"}}}}}}"#
    );
    assert_eq!(read(&text).unwrap().login.as_deref(), Some("a"));
}
