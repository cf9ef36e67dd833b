use axum::http::header::{HeaderMap, HeaderName, HeaderValue};
use couchmic::access::{
    clip, default_port, loopback, mark_cut, parse_origin, refusal, security_headers, split_host_port,
    Access, AllowList, Denied, GuardStep, Hdr, RequestInfo, TailscaleSelf, LOG_FIELD_MAX,
    PROBE_INTERVAL, REJECT_LOG_PER_MINUTE, REJECT_LOG_WINDOW,
};

const TS: &str = "pc.tail0000.ts.net";
const OWNER: &str = "me@example.com";

fn identity(login: Option<&str>) -> TailscaleSelf {
    TailscaleSelf { host: TS.into(), login: login.map(|l| l.into()) }
}

fn list() -> AllowList {
    AllowList::new(8321, Some(identity(Some(OWNER))), &[], false)
}

fn v(s: &str) -> Hdr {
    Hdr::Value(s.into())
}

/// A direct local request (another program, curl, a local browser).
fn local(host: &str, origin: Option<&str>) -> RequestInfo {
    RequestInfo {
        host: v(host),
        origin: origin.map(v).unwrap_or(Hdr::Absent),
        sec_fetch_site: Hdr::Absent,
        forwarded_host: Hdr::Absent,
        funnel: Hdr::Absent,
        tailscale_login: Hdr::Absent,
    }
}

/// A request forwarded by `tailscale serve` from a tailnet device of `login`.
fn via_serve(origin: Option<&str>, login: Option<&str>) -> RequestInfo {
    RequestInfo {
        host: v(TS),
        origin: origin.map(v).unwrap_or(Hdr::Absent),
        sec_fetch_site: Hdr::Absent,
        forwarded_host: v(TS),
        funnel: Hdr::Absent,
        tailscale_login: login.map(v).unwrap_or(Hdr::Absent),
    }
}

#[test]
fn local_clients_without_origin_pass() {
    let l = list();
    for host in ["127.0.0.1:8321", "localhost:8321", "[::1]:8321"] {
        assert_eq!(l.check(&local(host, None)), Ok(()), "{host}");
    }
}

#[test]
fn own_pages_pass() {
    let l = list();
    assert_eq!(l.check(&local("127.0.0.1:8321", Some("http://127.0.0.1:8321"))), Ok(()));
    let own = format!("https://{TS}");
    assert_eq!(l.check(&via_serve(Some(&own), Some(OWNER))), Ok(()));
    assert_eq!(
        l.check(&via_serve(Some(&format!("{own}:443/")), Some("ME@example.com"))),
        Ok(()),
        "login compare is case-insensitive"
    );
    let mut r = via_serve(Some(&own), Some(OWNER));
    r.sec_fetch_site = v("same-origin");
    assert_eq!(l.check(&r), Ok(()));
    r.sec_fetch_site = v("none");
    assert_eq!(l.check(&r), Ok(()), "typed URL, bookmark, Shortcuts");
}

#[test]
fn foreign_origin_is_rejected() {
    let l = list();
    for origin in [
        "https://evil.example",
        "http://pc.tail0000.ts.net",
        "https://pc.tail0000.ts.net:8443",
        "https://other.tail0000.ts.net",
        "http://127.0.0.1:5111",
        "http://localhost",
        "null",
        "file://",
    ] {
        assert_eq!(
            l.check(&local("127.0.0.1:8321", Some(origin))),
            Err(Denied::Origin),
            "{origin}"
        );
    }
    let mut r = local("127.0.0.1:8321", None);
    r.origin = Hdr::Unreadable;
    assert_eq!(l.check(&r), Err(Denied::Origin), "unreadable origin fails closed");
}

#[test]
fn dns_rebinding_host_is_rejected() {
    let l = list();
    assert_eq!(
        l.check(&local("evil.example:8321", Some("http://evil.example:8321"))),
        Err(Denied::Host)
    );
    assert_eq!(l.check(&local("evil.example:8321", None)), Err(Denied::Host));
    let mut r = local("x", None);
    r.host = Hdr::Absent;
    assert_eq!(l.check(&r), Err(Denied::MissingHost));
    r.host = Hdr::Unreadable;
    assert_eq!(l.check(&r), Err(Denied::Host));
    for host in [
        "pc.tail0000.ts.net.",
        "127.0.0.1.evil.com",
        "[::ffff:127.0.0.1]:8321",
        "127.1:8321",
        "0.0.0.0:8321",
        "2130706433:8321",
        "user@127.0.0.1:8321",
    ] {
        assert_eq!(l.check(&local(host, None)), Err(Denied::Host), "{host}");
    }
}

#[test]
fn funnel_is_always_rejected() {
    let l = list();
    let mut r = via_serve(Some(&format!("https://{TS}")), None);
    r.funnel = v("?1");
    assert_eq!(l.check(&r), Err(Denied::Funnel));
    let any = AllowList::new(8321, None, &[], true);
    let mut r = local("127.0.0.1:8321", None);
    r.funnel = v("?1");
    assert_eq!(any.check(&r), Err(Denied::Funnel), "even with --allow-any-tailnet-user");
}

#[test]
fn cross_site_requests_are_rejected() {
    let l = list();
    for site in ["cross-site", "same-site", "garbage"] {
        let mut r = local("127.0.0.1:8321", None);
        r.sec_fetch_site = v(site);
        assert_eq!(l.check(&r), Err(Denied::CrossSite), "{site}");
    }
}

#[test]
fn forwarded_requests_need_the_owners_login() {
    let l = list();
    let own = format!("https://{TS}");
    assert_eq!(
        l.check(&via_serve(Some(&own), Some("someone@else.com"))),
        Err(Denied::TailnetUser)
    );
    assert_eq!(
        l.check(&via_serve(Some(&own), None)),
        Err(Denied::TailnetUser),
        "tagged devices carry no login"
    );
    // A tailnet client that fakes a loopback Host through serve is still forwarded.
    let mut r = via_serve(None, Some("someone@else.com"));
    r.host = v("127.0.0.1:8321");
    assert_eq!(l.check(&r), Err(Denied::TailnetUser));
    // Owner unknown (Tailscale was not running at startup): fail closed.
    let unknown = AllowList::new(8321, Some(identity(None)), &[], false);
    assert_eq!(
        unknown.check(&via_serve(Some(&own), Some(OWNER))),
        Err(Denied::TailnetUser)
    );
    assert!(unknown.identity_incomplete());
    // Opt-out for custom reverse proxies.
    let any = AllowList::new(8321, Some(identity(None)), &[], true);
    assert_eq!(any.check(&via_serve(Some(&own), None)), Ok(()));
}

#[test]
fn without_tailscale_only_loopback_passes() {
    let l = AllowList::new(8321, None, &[], false);
    assert_eq!(l.check(&local(TS, Some(&format!("https://{TS}")))), Err(Denied::Host));
    assert_eq!(l.check(&local("127.0.0.1:8321", Some("http://127.0.0.1:8321"))), Ok(()));
}

#[test]
fn extra_origin_allows_host_and_origin() {
    let l = AllowList::new(
        8321,
        None,
        &["https://mic.example.net/".into(), "kaputt".into()],
        false,
    );
    assert_eq!(
        l.check(&local("mic.example.net", Some("https://mic.example.net"))),
        Ok(())
    );
    assert_eq!(
        l.check(&local("mic.example.net", Some("http://mic.example.net"))),
        Err(Denied::Origin)
    );
}

#[test]
fn host_parsing() {
    assert_eq!(split_host_port("[::1]:8321"), Some(("[::1]".into(), Some(8321))));
    assert_eq!(split_host_port("Host.Example"), Some(("host.example".into(), None)));
    assert_eq!(split_host_port("host:abc"), None);
    assert_eq!(split_host_port(""), None);
}

#[test]
fn clip_escapes_and_cuts() {
    assert_eq!(clip("a\nb"), "a\\nb");
    let long = "x".repeat(500);
    assert_eq!(clip(&long).len(), LOG_FIELD_MAX + 3);
}

#[test]
fn clip_marks_only_what_was_cut() {
    assert_eq!(clip("plain"), "plain");
    let exact = "y".repeat(LOG_FIELD_MAX);
    assert_eq!(clip(&exact), exact);
    assert_eq!(mark_cut("abc".into(), LOG_FIELD_MAX), "abc");
    assert_eq!(mark_cut("abc".into(), LOG_FIELD_MAX + 1), "abc...");
    assert_eq!(clip("tab\tquote\""), "tab\\tquote\\\"");
}

#[test]
fn host_parsing_edges() {
    assert_eq!(split_host_port("[::1]"), Some(("[::1]".into(), None)));
    assert_eq!(split_host_port("[::1"), None);
    assert_eq!(split_host_port("host:"), None);
    assert_eq!(split_host_port("host:65535"), Some(("host".into(), Some(65535))));
    assert_eq!(split_host_port("host:65536"), None);
    assert_eq!(split_host_port(":80"), None);
}

#[test]
fn origins_are_normalised() {
    let a = parse_origin("HTTPS://Mic.Example.net").unwrap();
    let b = parse_origin("https://mic.example.net:443/").unwrap();
    assert_eq!(a, b);
    assert_eq!(a.port, 443);
    assert!(parse_origin("kaputt").is_none());
    assert!(parse_origin("https://").is_none());
    assert!(parse_origin("ftp://mic.example.net").is_none());
    assert_eq!(default_port("http"), Some(80));
    assert_eq!(default_port("https"), Some(443));
    assert_eq!(default_port("ws"), None);
    assert!(loopback("localhost") && loopback("127.0.0.1") && loopback("[::1]"));
    assert!(!loopback("127.0.0.2"));
}

fn headers(pairs: &[(&'static str, &[u8])]) -> HeaderMap {
    let mut h = HeaderMap::new();
    for (name, value) in pairs {
        h.insert(HeaderName::from_static(name), HeaderValue::from_bytes(value).unwrap());
    }
    h
}

#[test]
fn request_facts_come_from_the_headers() {
    let h = headers(&[
        ("host", b"127.0.0.1:8321"),
        ("origin", b"http://127.0.0.1:8321"),
        ("sec-fetch-site", b"same-origin"),
        ("x-forwarded-host", b"pc.tail0000.ts.net"),
        ("tailscale-funnel-request", b"?1"),
        ("tailscale-user-login", b"me@example.com"),
    ]);
    let r = RequestInfo::from_headers(&h);
    assert_eq!(r.host, v("127.0.0.1:8321"));
    assert_eq!(r.origin, v("http://127.0.0.1:8321"));
    assert_eq!(r.sec_fetch_site, v("same-origin"));
    assert_eq!(r.forwarded_host, v("pc.tail0000.ts.net"));
    assert_eq!(r.funnel, v("?1"));
    assert_eq!(r.tailscale_login, v("me@example.com"));
    let empty = RequestInfo::from_headers(&HeaderMap::new());
    assert_eq!(empty.host, Hdr::Absent);
    assert!(!empty.funnel.is_present());
}

#[test]
fn unreadable_headers_are_present() {
    let h = headers(&[("host", b"caf\xe9"), ("origin", b"a\tb")]);
    let r = RequestInfo::from_headers(&h);
    assert_eq!(r.host, Hdr::Unreadable);
    assert!(r.host.is_present());
    assert_eq!(r.host.log_value(), "<unreadable>");
    assert_eq!(r.origin, v("a\tb"));
    assert_eq!(r.origin.log_value(), "a\\tb");
    assert_eq!(Hdr::Absent.log_value(), "-");
    assert_eq!(Hdr::from_map(&h, "Host"), Hdr::Unreadable);
    let h = headers(&[("tailscale-user-login", "jörg@example.com".as_bytes())]);
    assert_eq!(RequestInfo::from_headers(&h).tailscale_login, v("jörg@example.com"));
}

#[test]
fn lookups_are_spaced_and_turn_rejections() {
    let start = 1_000;
    let mut a = Access::new(AllowList::new(8321, None, &[], false), start);
    let own = format!("https://{TS}");
    let r = via_serve(Some(&own), Some(OWNER));
    assert_eq!(a.on_request(&r, start), GuardStep::Probe(Denied::Host));
    // Nothing found: the verdict stands, and no second lookup within half a minute.
    assert_eq!(a.on_probe(&r, Denied::Host, &None), Err(Denied::Host));
    assert_eq!(
        a.on_request(&r, start + PROBE_INTERVAL - 1),
        GuardStep::Decided(Err(Denied::Host))
    );
    assert_eq!(a.on_request(&r, start + PROBE_INTERVAL), GuardStep::Probe(Denied::Host));
    let found = Some(identity(Some(OWNER)));
    assert_eq!(a.on_probe(&r, Denied::Host, &found), Ok(()));
    assert_eq!(a.on_request(&r, start + 9 * PROBE_INTERVAL), GuardStep::Decided(Ok(())));
    assert!(!a.should_probe(start + 20 * PROBE_INTERVAL));
}

#[test]
fn other_rejections_ask_for_no_lookup() {
    let mut a = Access::new(AllowList::new(8321, None, &[], false), 0);
    let r = local("127.0.0.1:8321", Some("https://evil.example"));
    assert_eq!(a.on_request(&r, 5), GuardStep::Decided(Err(Denied::Origin)));
    assert!(a.should_probe(5));
    assert_eq!(a.check(&r), Err(Denied::Origin));
}

#[test]
fn rejections_are_logged_at_a_limited_rate() {
    let mut a = Access::new(list(), 0);
    let logged = (0..100).filter(|_| a.may_log_rejection(7).allowed).count();
    assert_eq!(logged, REJECT_LOG_PER_MINUTE as usize);
    let next = a.may_log_rejection(REJECT_LOG_WINDOW);
    assert!(next.allowed);
    assert_eq!(next.summary, Some(80));
}

#[test]
fn responses_carry_the_security_headers() {
    let h = security_headers();
    assert!(h.contains(&("content-security-policy", "frame-ancestors 'none'")));
    assert!(h.contains(&("x-frame-options", "DENY")));
    assert!(h.contains(&("x-content-type-options", "nosniff")));
    assert!(h.contains(&("referrer-policy", "no-referrer")));
    assert_eq!(h.len(), 4);
}

#[test]
fn hosts_read_back_with_any_port() {
    for s in ["Host.Example", "host:1", "[::1]:8321", " [FE80::1] ", "a:b:80"] {
        let (h, given) = split_host_port(s).unwrap();
        assert_eq!(split_host_port(&format!("{h}:443")), Some((h.clone(), Some(443))), "{s}");
        if given.is_none() || h.starts_with('[') {
            assert_eq!(split_host_port(&h), Some((h.clone(), None)), "{s}");
        }
    }
    let page = parse_origin("https://[fd7a::1]/").unwrap();
    assert_eq!((page.host.as_str(), page.port), ("[fd7a::1]", 443));
}

#[test]
fn any_user_lifts_only_the_login_rule() {
    let any = AllowList::new(8321, Some(identity(Some(OWNER))), &[], true);
    let own = format!("https://{TS}");
    let stranger = via_serve(Some(&own), Some("someone@else.com"));
    assert_eq!(list().check(&stranger), Err(Denied::TailnetUser));
    assert_eq!(any.check(&stranger), Ok(()));
    let mut funnel = stranger.clone();
    funnel.funnel = v("?1");
    let mut site = stranger.clone();
    site.sec_fetch_site = v("cross-site");
    let mut host = stranger.clone();
    host.host = v("evil.example");
    let mut origin = stranger.clone();
    origin.origin = v("https://evil.example");
    for r in [funnel, site, host, origin] {
        assert!(any.check(&r).is_err());
        assert_eq!(any.check(&r), list().check(&r));
    }
}

#[test]
fn every_rejection_is_answered_alike() {
    assert_eq!(refusal(&Ok(())), None);
    for why in [
        Denied::Funnel,
        Denied::CrossSite,
        Denied::MissingHost,
        Denied::Host,
        Denied::Origin,
        Denied::TailnetUser,
    ] {
        assert_eq!(refusal(&Err(why)), Some((403, "forbidden")), "{why:?}");
    }
}
