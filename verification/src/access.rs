//! Access control for HTTP and WebSocket.
//!
//! The HTTP server only listens on 127.0.0.1; other devices reach it only through
//! `tailscale serve`. Without further checks these ways would stay open:
//! - Cross-site WebSocket: any web page in a browser on the PC or on a tailnet device opens
//!   `ws://127.0.0.1:8321/ws` or `wss://<pc>.ts.net/ws`, switches the default microphone and plays
//!   its own audio. WebSockets have no CORS; the server has to check the origin itself.
//! - DNS rebinding: a foreign domain that points to 127.0.0.1 is "same origin" for the browser and
//!   would reach /ws and /api/stats. The host allowlist stops that.
//! - Framing / cross-site navigation: another site embeds or links the page to trick a tap on
//!   "Start". Stopped by `Sec-Fetch-Site` and the frame headers.
//! - Tailscale Funnel: requests from the internet are marked with `Tailscale-Funnel-Request`; they
//!   are always rejected.
//! - Other tailnet users: requests forwarded by `tailscale serve` (they carry `X-Forwarded-Host`)
//!   must carry the `Tailscale-User-Login` of the PC's own Tailscale user.
//!
//! Rules (all must hold):
//! 1. No `Tailscale-Funnel-Request` header.
//! 2. `Sec-Fetch-Site` is absent, `none` or `same-origin`.
//! 3. The Host header is a loopback address, the Tailscale name or an `--allow-origin` host.
//! 4. An Origin, if present, must be readable and belong to exactly these addresses (loopback only
//!    with our own port). Without an Origin (curl, LocalFlow) the host check is enough.
//! 5. Forwarded requests need the owner's Tailscale login (unless `--allow-any-tailnet-user`).

use vstd::prelude::*;
use axum::http::{HeaderMap, HeaderValue};
use crate::limit::{self, Verdict, Window};
use crate::{number, text};

verus! {

/// How often the Tailscale identity is looked up at most while it is unknown (at autostart after
/// logon Tailscale is often not running yet): 30 s in nanoseconds.
pub const PROBE_INTERVAL: u64 = 30_000_000_000;

/// The window of the rejection log: one minute in nanoseconds.
pub const REJECT_LOG_WINDOW: u64 = 60_000_000_000;

/// At most this many "request rejected" lines per minute; the rest is only counted.
pub const REJECT_LOG_PER_MINUTE: u32 = 20;

/// Logged header values are cut to this many characters.
pub const LOG_FIELD_MAX: usize = 128;

// ---------------------------------------------------------------------------------------------
// Hosts and origins
// ---------------------------------------------------------------------------------------------

/// Origin as (scheme, host, port) with the default port resolved.
#[derive(Debug, Clone, PartialEq, Eq)]
pub struct Origin {
    pub scheme: String,
    pub host: String,
    pub port: u16,
}

/// The texts of an origin.
pub struct OriginView {
    pub scheme: Seq<char>,
    pub host: Seq<char>,
    pub port: u16,
}

impl View for Origin {
    type V = OriginView;

    open spec fn view(&self) -> OriginView {
        OriginView { scheme: self.scheme@, host: self.host@, port: self.port }
    }
}

/// The port a scheme stands for when none is given.
pub open spec fn scheme_port(scheme: Seq<char>) -> Option<u16> {
    if scheme == "http"@ {
        Some(80u16)
    } else if scheme == "https"@ {
        Some(443u16)
    } else {
        None
    }
}

/// The names of this PC for itself.
pub open spec fn is_loopback(host: Seq<char>) -> bool {
    ||| host == "127.0.0.1"@
    ||| host == "localhost"@
    ||| host == "[::1]"@
}

/// A host followed by `rest`, which is empty or a colon and a port number.
pub open spec fn with_port(host: Seq<char>, rest: Seq<char>) -> Option<(Seq<char>, Option<u16>)> {
    if host.len() == 0 {
        None
    } else if rest.len() == 0 {
        Some((host, None))
    } else if rest[0] == ':' {
        match number::parsed(rest.skip(1), u16::MAX as nat) {
            Some(p) => Some((host, Some(p as u16))),
            None => None,
        }
    } else {
        None
    }
}

/// "host", "host:port", "[::1]:port" as (host, port), in small letters. IPv6 keeps its brackets.
pub open spec fn host_port(s: Seq<char>) -> Option<(Seq<char>, Option<u16>)> {
    let t = text::lower(text::trimmed(s));
    if t.len() == 0 {
        None
    } else if t[0] == '[' {
        match t.index_of_first(']') {
            Some(end) => with_port(t.take(end + 1), t.skip(end + 1)),
            None => None,
        }
    } else {
        match t.index_of_last(':') {
            Some(i) => with_port(t.take(i), t.skip(i)),
            None => with_port(t, Seq::empty()),
        }
    }
}

/// "https://host[:port]" as an origin. Paths, "null" and unknown schemes are invalid.
pub open spec fn origin_of(s: Seq<char>) -> Option<OriginView> {
    let t = text::trim_end_of(text::trimmed(s), '/');
    match text::position(t, seq![':', '/', '/'], 0) {
        None => None,
        Some(i) => {
            let scheme = text::lower(t.take(i));
            let authority = t.skip(i + 3);
            match scheme_port(scheme) {
                None => None,
                Some(default) => if authority.contains('/') || authority.contains('@') {
                    None
                } else {
                    match host_port(authority) {
                        None => None,
                        Some((host, port)) => Some(
                            OriginView {
                                scheme,
                                host,
                                port: match port {
                                    Some(p) => p,
                                    None => default,
                                },
                            },
                        ),
                    }
                },
            }
        },
    }
}

/// The port a scheme stands for when none is given.
pub fn default_port(scheme: &str) -> (r: Option<u16>)
    ensures
        r == scheme_port(scheme@),
{
    if text::same(scheme, "http") {
        Some(80)
    } else if text::same(scheme, "https") {
        Some(443)
    } else {
        None
    }
}

/// Whether a host is one of the PC's names for itself.
pub fn loopback(host: &str) -> (r: bool)
    ensures
        r == is_loopback(host@),
{
    text::same(host, "127.0.0.1") || text::same(host, "localhost") || text::same(host, "[::1]")
}

/// A host with what follows it.
fn join_port(host: Vec<char>, rest: Vec<char>) -> (r: Option<(String, Option<u16>)>)
    ensures
        match r {
            Some((h, p)) => with_port(host@, rest@) == Some((h@, p)),
            None => with_port(host@, rest@) is None,
        },
{
    if host.len() == 0 {
        None
    } else if rest.len() == 0 {
        Some((text::string_of(&host), None))
    } else if rest[0] == ':' {
        let digits = text::slice_of(&rest, 1, rest.len());
        assert(digits@ == rest@.skip(1));
        match number::parse_u16(&digits) {
            Some(p) => Some((text::string_of(&host), Some(p))),
            None => None,
        }
    } else {
        None
    }
}

/// The host and port of an address given in characters.
fn split_chars(v: &[char]) -> (r: Option<(String, Option<u16>)>)
    ensures
        match r {
            Some((h, p)) => host_port(v@) == Some((h@, p)),
            None => host_port(v@) is None,
        },
{
    let t = text::to_lower(&text::trim(v));
    if t.len() == 0 {
        return None;
    }
    if t[0] == '[' {
        proof {
            t@.index_of_first_ensures(']');
        }
        match text::find(&t, ']') {
            Some(end) => {
                assert(end < t.len());
                let host = text::slice_of(&t, 0, end + 1);
                let rest = text::slice_of(&t, end + 1, t.len());
                proof {
                    assert(host@ == t@.take(end + 1));
                    assert(rest@ == t@.skip(end + 1));
                }
                join_port(host, rest)
            },
            None => None,
        }
    } else {
        proof {
            t@.index_of_last_ensures(':');
        }
        match text::rfind(&t, ':') {
            Some(i) => {
                let host = text::slice_of(&t, 0, i);
                let rest = text::slice_of(&t, i, t.len());
                proof {
                    assert(host@ == t@.take(i as int));
                    assert(rest@ == t@.skip(i as int));
                }
                join_port(host, rest)
            },
            None => join_port(t, Vec::new()),
        }
    }
}

/// "host", "host:port", "[::1]:port" -> (host, port). IPv6 keeps its brackets.
pub fn split_host_port(s: &str) -> (r: Option<(String, Option<u16>)>)
    ensures
        match r {
            Some((h, p)) => host_port(s@) == Some((h@, p)),
            None => host_port(s@) is None,
        },
{
    split_chars(&text::chars_of(s))
}

/// "https://host[:port]" -> Origin. Paths, "null" and unknown schemes are invalid.
pub fn parse_origin(s: &str) -> (r: Option<Origin>)
    ensures
        match r {
            Some(o) => origin_of(s@) == Some(o@),
            None => origin_of(s@) is None,
        },
{
    let t = text::trim_end_char(&text::trim(&text::chars_of(s)), '/');
    let mut sep: Vec<char> = Vec::new();
    sep.push(':');
    sep.push('/');
    sep.push('/');
    assert(sep@ == seq![':', '/', '/']);
    let i = match text::find_text(&t, &sep) {
        Some(i) => i,
        None => return None,
    };
    assert(i + 3 <= t.len());
    let head = text::slice_of(&t, 0, i);
    let authority = text::slice_of(&t, i + 3, t.len());
    proof {
        assert(head@ == t@.take(i as int));
        assert(authority@ == t@.skip(i + 3));
    }
    let scheme = text::string_of(&text::to_lower(&head));
    let default = match default_port(&scheme) {
        Some(p) => p,
        None => return None,
    };
    if text::contains(&authority, '/') || text::contains(&authority, '@') {
        return None;
    }
    match split_chars(&authority) {
        Some((host, port)) => {
            let port = match port {
                Some(p) => p,
                None => default,
            };
            Some(Origin { scheme, host, port })
        },
        None => None,
    }
}

// ---------------------------------------------------------------------------------------------
// Requests
// ---------------------------------------------------------------------------------------------

/// Why a request is rejected.
#[derive(Debug, Clone, Copy, PartialEq, Eq, Structural)]
pub enum Denied {
    Funnel,
    CrossSite,
    MissingHost,
    Host,
    Origin,
    TailnetUser,
}

/// A header as the check sees it: absent, present but not valid UTF-8, or a value.
#[derive(Debug, Clone, PartialEq, Eq)]
pub enum Hdr {
    Absent,
    Unreadable,
    Value(String),
}

/// The text of a header.
pub enum HdrView {
    Absent,
    Unreadable,
    Value(Seq<char>),
}

impl View for Hdr {
    type V = HdrView;

    open spec fn view(&self) -> HdrView {
        match *self {
            Hdr::Absent => HdrView::Absent,
            Hdr::Unreadable => HdrView::Unreadable,
            Hdr::Value(s) => HdrView::Value(s@),
        }
    }
}

/// The headers of a request, as `axum` hands them over.
#[verifier::external_type_specification]
#[verifier::external_body]
#[verifier::reject_recursive_types(T)]
pub struct ExHeaderMap<T>(axum::http::HeaderMap<T>);

/// The value of a header.
#[verifier::external_type_specification]
#[verifier::external_body]
pub struct ExHeaderValue(axum::http::HeaderValue);

/// The first value of each header, by the header's name in small letters.
pub uninterp spec fn headers_of(map: axum::http::HeaderMap<axum::http::HeaderValue>) -> Map<
    Seq<char>,
    Seq<u8>,
>;

/// The bytes of a header value.
pub uninterp spec fn header_bytes(v: axum::http::HeaderValue) -> Seq<u8>;

/// The text that the bytes of a header value stand for, if they are valid UTF-8.
pub open spec fn readable_text(bytes: Seq<u8>) -> Option<Seq<char>> {
    if vstd::utf8::valid_utf8(bytes) {
        Some(vstd::utf8::decode_utf8(bytes))
    } else {
        None
    }
}

/// A header of a request as the check sees it.
pub open spec fn header_in(headers: Map<Seq<char>, Seq<u8>>, name: Seq<char>) -> HdrView {
    if headers.contains_key(name) {
        match readable_text(headers[name]) {
            Some(s) => HdrView::Value(s),
            None => HdrView::Unreadable,
        }
    } else {
        HdrView::Absent
    }
}

/// Calls `HeaderMap::get`: the first value of the header with that name (names are compared in
/// small letters), or nothing if the map has no such header.
#[verifier::external_body]
fn header_value<'a>(map: &'a HeaderMap<HeaderValue>, name: &str) -> (r: Option<&'a HeaderValue>)
    ensures
        match r {
            Some(v) => {
                &&& headers_of(*map).contains_key(text::lower(name@))
                &&& header_bytes(*v) == headers_of(*map)[text::lower(name@)]
            },
            None => !headers_of(*map).contains_key(text::lower(name@)),
        },
{
    map.get(name)
}

/// Calls `HeaderValue::as_bytes`: the bytes of the value.
#[verifier::external_body]
fn bytes_of(v: &HeaderValue) -> (r: &[u8])
    ensures
        r@ == header_bytes(*v),
{
    v.as_bytes()
}

impl Hdr {
    /// The header with that name (in small letters).
    pub fn from_map(map: &HeaderMap<HeaderValue>, name: &str) -> (r: Self)
        ensures
            r@ == header_in(headers_of(*map), text::lower(name@)),
    {
        match header_value(map, name) {
            None => Hdr::Absent,
            Some(v) => match text::read_utf8(bytes_of(v)) {
                Some(s) => Hdr::Value(s.to_owned()),
                None => Hdr::Unreadable,
            },
        }
    }

    /// Whether the header is there, readable or not.
    pub fn is_present(&self) -> (r: bool)
        ensures
            r == !(self@ is Absent),
    {
        match self {
            Hdr::Absent => false,
            _ => true,
        }
    }

    /// The header for the log: cut and escaped.
    pub fn log_value(&self) -> (r: String)
        ensures
            r@ == (match self@ {
                HdrView::Absent => "-"@,
                HdrView::Unreadable => "<unreadable>"@,
                HdrView::Value(v) => clipped(v, text::escaped(text::cut(v, LOG_FIELD_MAX as nat))),
            }),
            !r@.contains('\n'),
    {
        match self {
            Hdr::Absent => {
                proof {
                    reveal_strlit("-");
                    lemma_no_newline_in_literals();
                }
                "-".to_owned()
            },
            Hdr::Unreadable => {
                proof {
                    lemma_no_newline_in_literals();
                }
                "<unreadable>".to_owned()
            },
            Hdr::Value(v) => clip(v),
        }
    }
}

proof fn lemma_no_newline_in_literals()
    ensures
        !"-"@.contains('\n'),
        !"<unreadable>"@.contains('\n'),
        !"..."@.contains('\n'),
{
    reveal_strlit("-");
    reveal_strlit("<unreadable>");
    reveal_strlit("...");
}

/// The request facts the rules look at.
#[derive(Debug, Clone)]
pub struct RequestInfo {
    pub host: Hdr,
    pub origin: Hdr,
    pub sec_fetch_site: Hdr,
    /// `X-Forwarded-Host`: set by `tailscale serve` on every forwarded request.
    pub forwarded_host: Hdr,
    pub funnel: Hdr,
    pub tailscale_login: Hdr,
}

/// The texts of the request facts.
pub struct RequestView {
    pub host: HdrView,
    pub origin: HdrView,
    pub sec_fetch_site: HdrView,
    pub forwarded_host: HdrView,
    pub funnel: HdrView,
    pub tailscale_login: HdrView,
}

impl View for RequestInfo {
    type V = RequestView;

    open spec fn view(&self) -> RequestView {
        RequestView {
            host: self.host@,
            origin: self.origin@,
            sec_fetch_site: self.sec_fetch_site@,
            forwarded_host: self.forwarded_host@,
            funnel: self.funnel@,
            tailscale_login: self.tailscale_login@,
        }
    }
}

/// The request facts in a request's headers.
pub open spec fn request_in(headers: Map<Seq<char>, Seq<u8>>) -> RequestView {
    RequestView {
        host: header_in(headers, "host"@),
        origin: header_in(headers, "origin"@),
        sec_fetch_site: header_in(headers, "sec-fetch-site"@),
        forwarded_host: header_in(headers, "x-forwarded-host"@),
        funnel: header_in(headers, "tailscale-funnel-request"@),
        tailscale_login: header_in(headers, "tailscale-user-login"@),
    }
}

/// The header names are written in small letters.
proof fn lemma_header_names()
    ensures
        text::lower("host"@) == "host"@,
        text::lower("origin"@) == "origin"@,
        text::lower("sec-fetch-site"@) == "sec-fetch-site"@,
        text::lower("x-forwarded-host"@) == "x-forwarded-host"@,
        text::lower("tailscale-funnel-request"@) == "tailscale-funnel-request"@,
        text::lower("tailscale-user-login"@) == "tailscale-user-login"@,
{
    reveal_strlit("host");
    reveal_strlit("origin");
    reveal_strlit("sec-fetch-site");
    reveal_strlit("x-forwarded-host");
    reveal_strlit("tailscale-funnel-request");
    reveal_strlit("tailscale-user-login");
    assert(text::lower("host"@) =~= "host"@);
    assert(text::lower("origin"@) =~= "origin"@);
    assert(text::lower("sec-fetch-site"@) =~= "sec-fetch-site"@);
    assert(text::lower("x-forwarded-host"@) =~= "x-forwarded-host"@);
    assert(text::lower("tailscale-funnel-request"@) =~= "tailscale-funnel-request"@);
    assert(text::lower("tailscale-user-login"@) =~= "tailscale-user-login"@);
}

impl RequestInfo {
    /// The facts in a request's headers.
    pub fn from_headers(h: &HeaderMap<HeaderValue>) -> (r: Self)
        ensures
            r@ == request_in(headers_of(*h)),
    {
        proof {
            lemma_header_names();
        }
        RequestInfo {
            host: Hdr::from_map(h, "host"),
            origin: Hdr::from_map(h, "origin"),
            sec_fetch_site: Hdr::from_map(h, "sec-fetch-site"),
            forwarded_host: Hdr::from_map(h, "x-forwarded-host"),
            funnel: Hdr::from_map(h, "tailscale-funnel-request"),
            tailscale_login: Hdr::from_map(h, "tailscale-user-login"),
        }
    }
}

// ---------------------------------------------------------------------------------------------
// Log values
// ---------------------------------------------------------------------------------------------

/// A client's text for the log, whose cut and escaped form is `shown`: dots mark what was cut off.
pub open spec fn clipped(s: Seq<char>, shown: Seq<char>) -> Seq<char> {
    if s.len() > LOG_FIELD_MAX {
        shown + "..."@
    } else {
        shown
    }
}

/// Adds the dots to a cut and escaped text of originally `len` characters.
pub fn mark_cut(shown: String, len: usize) -> (r: String)
    ensures
        r@ == (if len > LOG_FIELD_MAX {
            shown@ + "..."@
        } else {
            shown@
        }),
{
    let mut out = shown;
    if len > LOG_FIELD_MAX {
        out.append("...");
    }
    out
}

/// A text for the log: cut to `LOG_FIELD_MAX` characters and escaped.
pub fn clip(s: &str) -> (r: String)
    ensures
        r@ == clipped(s@, text::escaped(text::cut(s@, LOG_FIELD_MAX as nat))),
        !r@.contains('\n'),
{
    let v = text::chars_of(s);
    let cut = text::string_of(&text::take_chars(&v, LOG_FIELD_MAX));
    let shown = text::escape(&cut);
    let ghost before = shown@;
    let r = mark_cut(shown, v.len());
    proof {
        lemma_no_newline_in_literals();
        if r@.contains('\n') {
            let k = choose|k: int| 0 <= k < r@.len() && r@[k] == '\n';
            if k < before.len() {
                assert(before[k] == '\n');
            } else {
                assert("..."@[k - before.len()] == '\n');
            }
        }
    }
    r
}

// ---------------------------------------------------------------------------------------------
// The rules
// ---------------------------------------------------------------------------------------------

/// The PC's own Tailscale identity from `tailscale status --json`.
#[derive(Debug, Clone, PartialEq, Eq)]
pub struct TailscaleSelf {
    /// MagicDNS name without the trailing dot, e.g. "pc.tail1234.ts.net".
    pub host: String,
    /// Login name of the Tailscale user that owns this PC, e.g. "me@example.com".
    pub login: Option<String>,
}

/// The texts of a Tailscale identity.
pub struct TailscaleView {
    pub host: Seq<char>,
    pub login: Option<Seq<char>>,
}

impl View for TailscaleSelf {
    type V = TailscaleView;

    open spec fn view(&self) -> TailscaleView {
        TailscaleView {
            host: self.host@,
            login: match self.login {
                Some(l) => Some(l@),
                None => None,
            },
        }
    }
}

/// The text view of an optional identity.
pub open spec fn identity_view(t: Option<TailscaleSelf>) -> Option<TailscaleView> {
    match t {
        Some(x) => Some(x@),
        None => None,
    }
}

/// An identity in small letters.
pub open spec fn lowered(t: TailscaleView) -> TailscaleView {
    TailscaleView {
        host: text::lower(t.host),
        login: match t.login {
            Some(l) => Some(text::lower(l)),
            None => None,
        },
    }
}

/// An optional identity in small letters.
pub open spec fn lowered_identity(t: Option<TailscaleView>) -> Option<TailscaleView> {
    match t {
        Some(x) => Some(lowered(x)),
        None => None,
    }
}

/// An identity in small letters.
fn lower_identity(t: &TailscaleSelf) -> (r: TailscaleSelf)
    ensures
        r@ == lowered(t@),
{
    TailscaleSelf {
        host: text::lower_string(&t.host),
        login: match &t.login {
            Some(l) => Some(text::lower_string(l)),
            None => None,
        },
    }
}

/// Allowed addresses and users. Plain data, so the rules are testable without a server.
#[derive(Debug, Clone)]
pub struct AllowList {
    port: u16,
    tailscale: Option<TailscaleSelf>,
    extra: Vec<Origin>,
    allow_any_tailnet_user: bool,
}

/// What an allowlist holds.
pub struct AllowView {
    /// The server's own port.
    pub port: u16,
    /// The PC's identity in small letters, if known.
    pub tailscale: Option<TailscaleView>,
    /// Additional origins.
    pub extra: Seq<OriginView>,
    /// Whether every tailnet user may send.
    pub any_user: bool,
}

/// The texts of origins.
pub open spec fn origins_view(v: Seq<Origin>) -> Seq<OriginView> {
    v.map_values(|o: Origin| o@)
}

/// The texts of strings.
pub open spec fn strings_view(v: Seq<String>) -> Seq<Seq<char>> {
    v.map_values(|s: String| s@)
}

/// The valid ones of a list of origins, in order.
pub open spec fn valid_origins(v: Seq<Seq<char>>) -> Seq<OriginView>
    decreases v.len(),
{
    if v.len() == 0 {
        Seq::empty()
    } else {
        match origin_of(v.last()) {
            Some(o) => valid_origins(v.drop_last()).push(o),
            None => valid_origins(v.drop_last()),
        }
    }
}

impl View for AllowList {
    type V = AllowView;

    closed spec fn view(&self) -> AllowView {
        AllowView {
            port: self.port,
            tailscale: identity_view(self.tailscale),
            extra: origins_view(self.extra@),
            any_user: self.allow_any_tailnet_user,
        }
    }
}

impl AllowView {
    /// The page's address on the tailnet.
    pub open spec fn tailscale_origin(self) -> Option<OriginView> {
        match self.tailscale {
            Some(t) => Some(OriginView { scheme: "https"@, host: t.host, port: 443 }),
            None => None,
        }
    }

    /// Whether an address is the tailnet page's or an additional one.
    pub open spec fn knows(self, o: OriginView) -> bool {
        self.tailscale_origin() == Some(o) || self.extra.contains(o)
    }

    /// Whether a host and port belong to a known address; without a port any will do.
    pub open spec fn serves(self, host: Seq<char>, port: Option<u16>) -> bool {
        exists|o: OriginView| #[trigger]
            self.knows(o) && o.host == host && (port is Some ==> port->0 == o.port)
    }

    /// Whether a Host header is one of ours.
    pub open spec fn host_ok(self, header: Seq<char>) -> bool {
        match host_port(header) {
            None => false,
            Some((host, port)) => is_loopback(host) || self.serves(host, port),
        }
    }

    /// Whether an Origin is one of ours (loopback only with our own port).
    pub open spec fn origin_ok(self, origin: Seq<char>) -> bool {
        match origin_of(origin) {
            None => false,
            Some(o) => if is_loopback(o.host) {
                o.port == self.port
            } else {
                self.knows(o)
            },
        }
    }

    /// Whether a forwarded request with this login may pass.
    pub open spec fn user_ok(self, login: HdrView) -> bool {
        self.any_user || match (self.tailscale, login) {
            (Some(t), HdrView::Value(v)) => t.login == Some(text::lower(text::trimmed(v))),
            _ => false,
        }
    }

    /// Whether looking up the Tailscale identity again could change a rejection.
    pub open spec fn identity_incomplete(self) -> bool {
        match self.tailscale {
            Some(t) => t.login is None,
            None => true,
        }
    }

    /// The same list with another identity.
    pub open spec fn with_identity(self, t: TailscaleView) -> AllowView {
        AllowView { tailscale: Some(lowered(t)), ..self }
    }

    /// The verdict on a request: the first rule that it breaks.
    pub open spec fn verdict(self, r: RequestView) -> Result<(), Denied> {
        if !(r.funnel is Absent) {
            Err(Denied::Funnel)
        } else if !same_site(r.sec_fetch_site) {
            Err(Denied::CrossSite)
        } else if r.host is Absent {
            Err(Denied::MissingHost)
        } else if !(r.host is Value && self.host_ok(r.host->Value_0)) {
            Err(Denied::Host)
        } else if !(r.origin is Absent || (r.origin is Value && self.origin_ok(
            r.origin->Value_0,
        ))) {
            Err(Denied::Origin)
        } else if !(r.forwarded_host is Absent) && !self.user_ok(r.tailscale_login) {
            Err(Denied::TailnetUser)
        } else {
            Ok(())
        }
    }
}

/// Whether `Sec-Fetch-Site` is absent, `none` or `same-origin`.
pub open spec fn same_site(h: HdrView) -> bool {
    match h {
        HdrView::Absent => true,
        HdrView::Unreadable => false,
        HdrView::Value(v) => v == "none"@ || v == "same-origin"@,
    }
}

/// Whether two origins are the same.
fn same_origin(a: &Origin, b: &Origin) -> (r: bool)
    ensures
        r == (a@ == b@),
{
    text::same(&a.scheme, &b.scheme) && text::same(&a.host, &b.host) && a.port == b.port
}

impl AllowList {
    /// `extra`: additional origins like "https://mic.example.net"; invalid ones are left out.
    pub fn new(
        port: u16,
        tailscale: Option<TailscaleSelf>,
        extra: &[String],
        allow_any_tailnet_user: bool,
    ) -> (r: Self)
        ensures
            r@ == (AllowView {
                port,
                tailscale: lowered_identity(identity_view(tailscale)),
                extra: valid_origins(strings_view(extra@)),
                any_user: allow_any_tailnet_user,
            }),
    {
        let ghost all = strings_view(extra@);
        let mut valid: Vec<Origin> = Vec::new();
        assert(origins_view(valid@) == Seq::<OriginView>::empty());
        assert(all.take(0) == Seq::<Seq<char>>::empty());
        for i in 0..extra.len()
            invariant
                all == strings_view(extra@),
                origins_view(valid@) == valid_origins(all.take(i as int)),
        {
            let ghost before = valid@;
            proof {
                assert(all.take(i + 1).drop_last() == all.take(i as int));
                assert(all[i as int] == extra@[i as int]@);
            }
            if let Some(o) = parse_origin(&extra[i]) {
                valid.push(o);
                assert(origins_view(valid@) == origins_view(before).push(o@));
            }
        }
        assert(all.take(all.len() as int) == all);
        AllowList {
            port,
            tailscale: match &tailscale {
                Some(t) => Some(lower_identity(t)),
                None => None,
            },
            extra: valid,
            allow_any_tailnet_user,
        }
    }

    /// The page's address on the tailnet, if the PC's name is known.
    pub fn tailscale_origin(&self) -> (r: Option<Origin>)
        ensures
            match r {
                Some(o) => self@.tailscale_origin() == Some(o@),
                None => self@.tailscale_origin() is None,
            },
    {
        match &self.tailscale {
            Some(t) => Some(Origin { scheme: "https".to_owned(), host: t.host.clone(), port: 443 }),
            None => None,
        }
    }

    /// Whether an additional address has this host and, if given, this port.
    fn extra_serves(&self, host: &str, port: Option<u16>) -> (r: bool)
        ensures
            r == exists|o: OriginView| #[trigger]
                self@.extra.contains(o) && o.host == host@ && (port is Some ==> port->0 == o.port),
    {
        for i in 0..self.extra.len()
            invariant
                forall|j: int|
                    0 <= j < i ==> !((#[trigger] self.extra@[j])@.host == host@ && (port is Some
                        ==> port->0 == self.extra@[j]@.port)),
        {
            let o = &self.extra[i];
            let port_ok = match port {
                Some(p) => p == o.port,
                None => true,
            };
            if text::same(&o.host, host) && port_ok {
                proof {
                    assert(self@.extra[i as int] == o@);
                    assert(self@.extra.contains(o@));
                }
                return true;
            }
        }
        proof {
            assert forall|o: OriginView| #[trigger] self@.extra.contains(o) implies !(o.host
                == host@ && (port is Some ==> port->0 == o.port)) by {
                let k = choose|k: int| 0 <= k < self@.extra.len() && self@.extra[k] == o;
                assert(self@.extra[k] == self.extra@[k]@);
            }
        }
        false
    }

    /// Whether an origin is an additional one.
    fn extra_contains(&self, o: &Origin) -> (r: bool)
        ensures
            r == self@.extra.contains(o@),
    {
        for i in 0..self.extra.len()
            invariant
                forall|j: int| 0 <= j < i ==> (#[trigger] self.extra@[j])@ != o@,
        {
            if same_origin(&self.extra[i], o) {
                proof {
                    assert(self@.extra[i as int] == o@);
                }
                return true;
            }
        }
        proof {
            if self@.extra.contains(o@) {
                let k = choose|k: int| 0 <= k < self@.extra.len() && self@.extra[k] == o@;
                assert(self@.extra[k] == self.extra@[k]@);
            }
        }
        false
    }

    /// Whether a Host header is one of ours. Without a port in it the scheme's default port
    /// applies; behind `tailscale serve` the server cannot see which scheme the client used, so
    /// both are accepted.
    pub fn host_ok(&self, host_header: &str) -> (r: bool)
        ensures
            r == self@.host_ok(host_header@),
    {
        let (host, port) = match split_host_port(host_header) {
            Some(hp) => hp,
            None => return false,
        };
        if loopback(&host) {
            return true;
        }
        if let Some(o) = self.tailscale_origin() {
            let port_ok = match port {
                Some(p) => p == o.port,
                None => true,
            };
            if text::same(&o.host, &host) && port_ok {
                assert(self@.knows(o@));
                return true;
            }
        }
        let r = self.extra_serves(&host, port);
        proof {
            if r {
                let o = choose|o: OriginView| #[trigger]
                    self@.extra.contains(o) && o.host == host@ && (port is Some ==> port->0
                        == o.port);
                assert(self@.knows(o));
            } else {
                assert forall|o: OriginView| #[trigger] self@.knows(o) implies !(o.host == host@
                    && (port is Some ==> port->0 == o.port)) by {
                    if self@.extra.contains(o) {
                    }
                }
            }
        }
        r
    }

    /// Whether an Origin is one of ours.
    pub fn origin_ok(&self, origin: &str) -> (r: bool)
        ensures
            r == self@.origin_ok(origin@),
    {
        let o = match parse_origin(origin) {
            Some(o) => o,
            None => return false,
        };
        if loopback(&o.host) {
            return o.port == self.port;
        }
        if let Some(t) = self.tailscale_origin() {
            if same_origin(&t, &o) {
                return true;
            }
        }
        self.extra_contains(&o)
    }

    /// Whether a forwarded request with this login may pass: only the owner's, unless every tailnet
    /// user is allowed.
    pub fn tailnet_user_ok(&self, login: &Hdr) -> (r: bool)
        ensures
            r == self@.user_ok(login@),
    {
        if self.allow_any_tailnet_user {
            return true;
        }
        let owner = match &self.tailscale {
            Some(t) => match &t.login {
                Some(l) => l,
                None => return false,
            },
            None => return false,
        };
        match login {
            Hdr::Value(v) => {
                let given = text::string_of(&text::to_lower(&text::trim(&text::chars_of(v))));
                text::same(&given, owner)
            },
            _ => false,
        }
    }

    /// The verdict on a request: the first rule that it breaks.
    pub fn check(&self, r: &RequestInfo) -> (res: Result<(), Denied>)
        ensures
            res == self@.verdict(r@),
    {
        if r.funnel.is_present() {
            return Err(Denied::Funnel);
        }
        match &r.sec_fetch_site {
            Hdr::Absent => {},
            Hdr::Unreadable => return Err(Denied::CrossSite),
            Hdr::Value(v) => {
                if !text::same(v, "none") && !text::same(v, "same-origin") {
                    return Err(Denied::CrossSite);
                }
            },
        }
        match &r.host {
            Hdr::Absent => return Err(Denied::MissingHost),
            Hdr::Unreadable => return Err(Denied::Host),
            Hdr::Value(h) => {
                if !self.host_ok(h) {
                    return Err(Denied::Host);
                }
            },
        }
        match &r.origin {
            Hdr::Absent => {},
            Hdr::Unreadable => return Err(Denied::Origin),
            Hdr::Value(o) => {
                if !self.origin_ok(o) {
                    return Err(Denied::Origin);
                }
            },
        }
        if r.forwarded_host.is_present() && !self.tailnet_user_ok(&r.tailscale_login) {
            return Err(Denied::TailnetUser);
        }
        Ok(())
    }

    /// Whether looking up the Tailscale identity again could change a rejection.
    pub fn identity_incomplete(&self) -> (r: bool)
        ensures
            r == self@.identity_incomplete(),
    {
        match &self.tailscale {
            Some(t) => t.login.is_none(),
            None => true,
        }
    }

    /// Takes over a Tailscale identity that was looked up.
    pub fn set_identity(&mut self, t: &TailscaleSelf)
        ensures
            final(self)@ == old(self)@.with_identity(t@),
    {
        self.tailscale = Some(lower_identity(t));
    }
}

// ---------------------------------------------------------------------------------------------
// The guard in front of all routes
// ---------------------------------------------------------------------------------------------

/// State of the guard: allowlist, lazy lookup of the Tailscale identity, limit of the rejection
/// log.
#[derive(Debug, Clone)]
pub struct Access {
    list: AllowList,
    last_probe: Option<u64>,
    reject_log: Window,
}

/// What the guard knows.
pub struct AccessView {
    pub list: AllowView,
    /// When the identity was looked up last.
    pub last_probe: Option<u64>,
    pub reject_log: Window,
}

impl View for Access {
    type V = AccessView;

    closed spec fn view(&self) -> AccessView {
        AccessView {
            list: self.list@,
            last_probe: self.last_probe,
            reject_log: self.reject_log,
        }
    }
}

/// What the guard wants to do with a request.
#[derive(Debug, Clone, Copy, PartialEq, Eq)]
pub enum GuardStep {
    /// The verdict stands.
    Decided(Result<(), Denied>),
    /// Look up the Tailscale identity first, then report with `Access::on_probe`.
    Probe(Denied),
}

impl AccessView {
    /// Whether the identity is to be looked up: only while it is incomplete and the last lookup is
    /// long enough ago.
    pub open spec fn probe_due(self, now: u64) -> bool {
        self.list.identity_incomplete() && (self.last_probe is Some ==> limit::elapsed(
            self.last_probe->0,
            now,
        ) >= PROBE_INTERVAL)
    }

    /// The first look at a request: the guard afterwards, and what it wants to do.
    pub open spec fn first_look(self, r: RequestView, now: u64) -> (AccessView, GuardStep) {
        let verdict = self.list.verdict(r);
        if AccessView::worth_a_probe(verdict) && self.probe_due(now) {
            (AccessView { last_probe: Some(now), ..self }, GuardStep::Probe(verdict->Err_0))
        } else {
            (self, GuardStep::Decided(verdict))
        }
    }

    /// The look after the identity was looked up: the guard afterwards, and the verdict.
    pub open spec fn second_look(
        self,
        r: RequestView,
        before: Denied,
        identity: Option<TailscaleView>,
    ) -> (AccessView, Result<(), Denied>) {
        match identity {
            Some(t) => {
                let list = self.list.with_identity(t);
                (AccessView { list, ..self }, list.verdict(r))
            },
            None => (self, Err(before)),
        }
    }

    /// Whether another identity could turn this verdict.
    pub open spec fn worth_a_probe(verdict: Result<(), Denied>) -> bool {
        verdict == Err::<(), Denied>(Denied::Host) || verdict == Err::<(), Denied>(
            Denied::TailnetUser,
        )
    }
}

impl Access {
    /// A guard with this allowlist that has looked up and logged nothing yet.
    pub fn new(list: AllowList, now: u64) -> (r: Self)
        ensures
            r@ == (AccessView { list: list@, last_probe: None, reject_log: limit::fresh(now) }),
    {
        Access { list, last_probe: None, reject_log: Window::new(now) }
    }

    /// The verdict on a request.
    pub fn check(&self, r: &RequestInfo) -> (res: Result<(), Denied>)
        ensures
            res == self@.list.verdict(r@),
    {
        self.list.check(r)
    }

    /// Only while the Tailscale identity is incomplete and the last lookup is long enough ago.
    pub fn should_probe(&mut self, now: u64) -> (r: bool)
        ensures
            r == old(self)@.probe_due(now),
            final(self)@ == (AccessView {
                last_probe: if r {
                    Some(now)
                } else {
                    old(self)@.last_probe
                },
                ..old(self)@
            }),
    {
        if !self.list.identity_incomplete() {
            return false;
        }
        if let Some(t) = self.last_probe {
            if limit::time_since(t, now) < PROBE_INTERVAL {
                return false;
            }
        }
        self.last_probe = Some(now);
        true
    }

    /// Whether this rejection may be logged, and how many were not logged in the minute that ended.
    pub fn may_log_rejection(&mut self, now: u64) -> (r: Verdict)
        ensures
            r == limit::verdict(
                old(self)@.reject_log,
                now,
                REJECT_LOG_WINDOW,
                REJECT_LOG_PER_MINUTE,
            ),
            final(self)@ == (AccessView {
                reject_log: limit::admitted(
                    old(self)@.reject_log,
                    now,
                    REJECT_LOG_WINDOW,
                    REJECT_LOG_PER_MINUTE,
                ),
                ..old(self)@
            }),
    {
        self.reject_log.count(now, REJECT_LOG_WINDOW, REJECT_LOG_PER_MINUTE)
    }

    /// First look at a request: either a verdict, or the identity has to be looked up before one.
    pub fn on_request(&mut self, info: &RequestInfo, now: u64) -> (r: GuardStep)
        ensures
            ({
                let verdict = old(self)@.list.verdict(info@);
                let probe = AccessView::worth_a_probe(verdict) && old(self)@.probe_due(now);
                &&& r == (if probe {
                    GuardStep::Probe(verdict->Err_0)
                } else {
                    GuardStep::Decided(verdict)
                })
                &&& final(self)@ == (AccessView {
                    last_probe: if probe {
                        Some(now)
                    } else {
                        old(self)@.last_probe
                    },
                    ..old(self)@
                })
            }),
            (final(self)@, r) == old(self)@.first_look(info@, now),
    {
        let verdict = self.check(info);
        match verdict {
            Err(Denied::Host) => {
                if self.should_probe(now) {
                    return GuardStep::Probe(Denied::Host);
                }
            },
            Err(Denied::TailnetUser) => {
                if self.should_probe(now) {
                    return GuardStep::Probe(Denied::TailnetUser);
                }
            },
            _ => {},
        }
        GuardStep::Decided(verdict)
    }

    /// The identity was looked up. If there is one it is taken over and the request is checked
    /// again, else the verdict from before stands.
    pub fn on_probe(
        &mut self,
        info: &RequestInfo,
        before: Denied,
        identity: &Option<TailscaleSelf>,
    ) -> (r: Result<(), Denied>)
        ensures
            match *identity {
                Some(t) => {
                    let list = old(self)@.list.with_identity(t@);
                    r == list.verdict(info@) && final(self)@ == (AccessView { list, ..old(self)@ })
                },
                None => r == Err::<(), Denied>(before) && final(self)@ == old(self)@,
            },
            (final(self)@, r) == old(self)@.second_look(info@, before, identity_view(*identity)),
    {
        match identity {
            Some(t) => {
                self.list.set_identity(t);
                self.check(info)
            },
            None => Err(before),
        }
    }
}

/// The HTTP status of a rejected request.
pub const FORBIDDEN: u16 = 403;

/// What a request is answered for its verdict alone: nothing if it passes, else the status 403 and
/// its text, whatever the reason, which is only logged.
pub fn refusal(verdict: &Result<(), Denied>) -> (r: Option<(u16, &'static str)>)
    ensures
        match *verdict {
            Ok(_) => r is None,
            Err(_) => {
                &&& r matches Some((status, body))
                &&& status == FORBIDDEN
                &&& body@ == "forbidden"@
            },
        },
{
    match verdict {
        Ok(_) => None,
        Err(_) => Some((FORBIDDEN, "forbidden")),
    }
}

/// Security headers on every response: never framed, no MIME sniffing, no referrer.
pub open spec fn response_headers() -> Seq<(Seq<char>, Seq<char>)> {
    seq![
        ("content-security-policy"@, "frame-ancestors 'none'"@),
        ("x-frame-options"@, "DENY"@),
        ("x-content-type-options"@, "nosniff"@),
        ("referrer-policy"@, "no-referrer"@),
    ]
}

/// Security headers on every response: never framed, no MIME sniffing, no referrer.
pub fn security_headers() -> (r: Vec<(&'static str, &'static str)>)
    ensures
        r@.map_values(|h: (&'static str, &'static str)| (h.0@, h.1@)) == response_headers(),
{
    let mut r: Vec<(&'static str, &'static str)> = Vec::new();
    r.push(("content-security-policy", "frame-ancestors 'none'"));
    r.push(("x-frame-options", "DENY"));
    r.push(("x-content-type-options", "nosniff"));
    r.push(("referrer-policy", "no-referrer"));
    r
}

// ---------------------------------------------------------------------------------------------
// Laws
// ---------------------------------------------------------------------------------------------

/// A request passes exactly if all five rules hold.
pub proof fn passes_if_and_only_if_all_rules_hold(l: AllowView, r: RequestView)
    ensures
        l.verdict(r) is Ok <==> {
            &&& r.funnel is Absent
            &&& same_site(r.sec_fetch_site)
            &&& r.host is Value
            &&& l.host_ok(r.host->Value_0)
            &&& r.origin is Absent || (r.origin is Value && l.origin_ok(r.origin->Value_0))
            &&& r.forwarded_host is Absent || l.user_ok(r.tailscale_login)
        },
{
}

/// Funnel requests are always rejected, whatever the settings and whatever else they carry.
pub proof fn funnel_is_always_rejected(l: AllowView, r: RequestView)
    requires
        !(r.funnel is Absent),
    ensures
        l.verdict(r) == Err::<(), Denied>(Denied::Funnel),
{
}

/// A forwarded request that passes carries the owner's login, unless every tailnet user is allowed.
pub proof fn forwarded_requests_carry_the_owners_login(l: AllowView, r: RequestView)
    requires
        !(r.forwarded_host is Absent),
        !l.any_user,
        l.verdict(r) is Ok,
    ensures
        l.tailscale is Some,
        r.tailscale_login is Value,
        l.tailscale->0.login == Some(text::lower(text::trimmed(r.tailscale_login->Value_0))),
{
}

/// While the owner is unknown, forwarded requests are rejected (unless every tailnet user is
/// allowed).
pub proof fn unknown_owner_fails_closed(l: AllowView, r: RequestView)
    requires
        l.identity_incomplete(),
        !l.any_user,
        !(r.forwarded_host is Absent),
    ensures
        l.verdict(r) is Err,
{
}

/// A header that is there but cannot be read never helps: such a Host, Origin or `Sec-Fetch-Site`
/// is rejected.
pub proof fn unreadable_headers_fail_closed(l: AllowView, r: RequestView)
    requires
        r.host is Unreadable || r.origin is Unreadable || r.sec_fetch_site is Unreadable,
    ensures
        l.verdict(r) is Err,
{
}

/// Without a Tailscale name and additional origins only loopback hosts pass.
pub proof fn without_names_only_loopback_passes(l: AllowView, r: RequestView)
    requires
        l.tailscale is None,
        l.extra.len() == 0,
        l.verdict(r) is Ok,
    ensures
        r.host is Value,
        host_port(r.host->Value_0) matches Some((host, _)) && is_loopback(host),
{
    let (host, port) = host_port(r.host->Value_0)->0;
    if l.serves(host, port) {
        let o = choose|o: OriginView| #[trigger]
            l.knows(o) && o.host == host && (port is Some ==> port->0 == o.port);
        assert(l.extra.contains(o));
    }
}

/// Local programs without an Origin (curl, LocalFlow) pass under any of the loopback names, with
/// any port.
pub proof fn local_clients_pass(l: AllowView, r: RequestView)
    requires
        r.funnel is Absent,
        same_site(r.sec_fetch_site),
        r.origin is Absent,
        r.forwarded_host is Absent,
        r.host is Value,
        host_port(r.host->Value_0) matches Some((host, _)) && is_loopback(host),
    ensures
        l.verdict(r) is Ok,
{
}

/// A page from elsewhere never passes: an Origin that is let through is the page's own address, an
/// additional one, or loopback with the server's own port.
pub proof fn foreign_origins_are_rejected(l: AllowView, r: RequestView)
    requires
        r.origin is Value,
        l.verdict(r) is Ok,
    ensures
        origin_of(r.origin->Value_0) matches Some(o) && ((is_loopback(o.host) && o.port == l.port)
            || l.knows(o)),
{
}

/// Allowing every tailnet user, or one more origin, rejects nothing that passed before.
pub proof fn more_permission_rejects_nothing(l: AllowView, more: AllowView, r: RequestView)
    requires
        more.port == l.port,
        more.tailscale == l.tailscale,
        l.any_user ==> more.any_user,
        forall|o: OriginView| #[trigger] l.extra.contains(o) ==> more.extra.contains(o),
        l.verdict(r) is Ok,
    ensures
        more.verdict(r) is Ok,
{
    assert forall|o: OriginView| #[trigger] l.knows(o) implies more.knows(o) by {
        if l.extra.contains(o) {
        }
    }
    let (host, port) = host_port(r.host->Value_0)->0;
    if l.serves(host, port) {
        let o = choose|o: OriginView| #[trigger]
            l.knows(o) && o.host == host && (port is Some ==> port->0 == o.port);
        assert(more.knows(o));
    }
    if r.origin is Value {
        let o = origin_of(r.origin->Value_0)->0;
        assert(l.knows(o) ==> more.knows(o));
    }
}

/// Allowing every tailnet user lifts exactly the rule on the owner's login: a request that only this
/// rule rejects passes, and every other verdict stays.
pub proof fn any_user_lifts_only_the_login_rule(l: AllowView, r: RequestView)
    ensures
        (AllowView { any_user: true, ..l }).verdict(r) == (if l.verdict(r) == Err::<(), Denied>(
            Denied::TailnetUser,
        ) {
            Ok::<(), Denied>(())
        } else {
            l.verdict(r)
        }),
{
    let any = AllowView { any_user: true, ..l };
    assert(forall|o: OriginView| #[trigger] any.knows(o) <==> l.knows(o));
    if r.host is Value && host_port(r.host->Value_0) is Some {
        let (host, port) = host_port(r.host->Value_0)->0;
        if l.serves(host, port) {
            let o = choose|o: OriginView| #[trigger]
                l.knows(o) && o.host == host && (port is Some ==> port->0 == o.port);
            assert(any.knows(o));
        }
        if any.serves(host, port) {
            let o = choose|o: OriginView| #[trigger]
                any.knows(o) && o.host == host && (port is Some ==> port->0 == o.port);
            assert(l.knows(o));
        }
    }
}

/// A complete identity is never looked up again, and an incomplete one at most every
/// `PROBE_INTERVAL`.
pub proof fn lookups_are_spaced(a: AccessView, b: AccessView, first: u64, second: u64)
    requires
        a.probe_due(first),
        b.last_probe == Some(first),
        first <= second,
        b.probe_due(second),
    ensures
        a.list.identity_incomplete(),
        second - first >= PROBE_INTERVAL,
{
}

/// Small letters, digits, dots and hyphens: what a host name is made of.
pub open spec fn is_plain(c: char) -> bool {
    'a' <= c <= 'z' || '0' <= c <= '9' || c == '.' || c == '-'
}

/// A host name: one or more plain characters.
pub open spec fn is_host_name(h: Seq<char>) -> bool {
    h.len() > 0 && forall|i: int| 0 <= i < h.len() ==> is_plain(#[trigger] h[i])
}

/// A text without white space at its ends and without capitals stays as it is.
proof fn lemma_stays(s: Seq<char>)
    requires
        s.len() > 0,
        !text::is_space(s[0]),
        !text::is_space(s.last()),
        forall|i: int| 0 <= i < s.len() ==> !('A' <= #[trigger] s[i] <= 'Z'),
    ensures
        text::trimmed(s) == s,
        text::lower(s) == s,
{
    assert(text::lower(s) =~= s);
}

/// What is left after trimming has no white space at either end.
proof fn lemma_trimmed_ends(s: Seq<char>)
    ensures
        text::trim_start(s).len() > 0 ==> !text::is_space(text::trim_start(s)[0]),
        text::trim_end(s).len() > 0 ==> !text::is_space(text::trim_end(s).last()) && text::trim_end(
            s,
        )[0] == s[0],
    decreases s.len(),
{
    if s.len() > 0 {
        lemma_trimmed_ends(s.skip(1));
        lemma_trimmed_ends(s.drop_last());
    }
}

/// A header in small letters, without white space around it, holds no capitals and no white space at
/// either end.
proof fn lemma_normalised(s: Seq<char>)
    ensures
        ({
            let t = text::lower(text::trimmed(s));
            &&& t.len() > 0 ==> !text::is_space(t[0]) && !text::is_space(t.last())
            &&& forall|i: int| 0 <= i < t.len() ==> !('A' <= #[trigger] t[i] <= 'Z')
        }),
{
    let u = text::trimmed(s);
    lemma_trimmed_ends(s);
    lemma_trimmed_ends(text::trim_start(s));
    if u.len() > 0 {
        lemma_small_space(u[0]);
        lemma_small_space(u.last());
    }
}

/// Every host that an address gives is read back as it is: with any port behind it, and also alone if
/// it was given alone or stands in brackets.
pub proof fn host_name_reads_back(s: Seq<char>, port: u16)
    requires
        host_port(s) is Some,
    ensures
        ({
            let (h, given) = host_port(s)->0;
            &&& host_port(h + seq![':'] + number::decimal(port as nat)) == Some((h, Some(port)))
            &&& given is None || h[0] == '[' ==> host_port(h) == Some((h, None::<u16>))
        }),
{
    let t = text::lower(text::trimmed(s));
    let (h, given) = host_port(s)->0;
    lemma_normalised(s);
    t.index_of_first_ensures(']');
    t.index_of_last_ensures(':');
    assert(h.len() > 0 && h =~= t.take(h.len() as int));
    assert forall|i: int| 0 <= i < h.len() implies !('A' <= #[trigger] h[i] <= 'Z') by {
        assert(h[i] == t[i]);
    }
    let d = number::decimal(port as nat);
    number::lemma_decimal(port as nat);
    number::decimal_reads_back(port as nat, u16::MAX as nat);
    let w = h + seq![':'] + d;
    assert forall|i: int| 0 <= i < w.len() implies !('A' <= #[trigger] w[i] <= 'Z') by {
        if i < h.len() {
            assert(w[i] == h[i]);
        } else if i > h.len() {
            assert(number::is_digit(d[i - h.len() - 1]));
        }
    }
    assert(number::is_digit(d[d.len() - 1]));
    assert(w[0] == t[0]);
    assert(w.last() == d.last());
    lemma_stays(w);
    let rest = w.skip(h.len() as int);
    assert(w.take(h.len() as int) =~= h);
    assert(rest.skip(1) =~= d);
    if t[0] == '[' {
        let end = h.len() - 1;
        assert(t.index_of_first(']') == Some(end));
        w.index_of_first_ensures(']');
        h.index_of_first_ensures(']');
        assert(w[end] == t[end] && h[end] == t[end]);
        assert(w.contains(']') && h.contains(']'));
        let k = w.index_of_first(']')->0;
        let n = h.index_of_first(']')->0;
        assert(w[k] == ']' && k <= end);
        assert(w[k] == t[k]);
        assert(h[n] == t[n]);
        assert(k == end && n == end);
        lemma_stays(h);
        assert(h.take(end + 1) =~= h);
        assert(h.skip(end + 1) =~= Seq::empty());
    } else {
        w.index_of_last_ensures(':');
        assert(w[h.len() as int] == ':');
        assert(w.contains(':'));
        let k = w.index_of_last(':')->0;
        if k > h.len() {
            assert(number::is_digit(d[k - h.len() - 1]));
        }
        assert(k == h.len());
        if given is None {
            assert(h =~= t);
            lemma_stays(t);
        }
    }
}

/// A plain name is a host and nothing else.
pub proof fn plain_names_are_hosts(h: Seq<char>)
    requires
        is_host_name(h),
    ensures
        host_port(h) == Some((h, None::<u16>)),
        !h.contains('/'),
        !h.contains('@'),
{
    assert(is_plain(h[0]));
    assert(is_plain(h[h.len() - 1]));
    lemma_stays(h);
    h.index_of_last_ensures(':');
    assert forall|c: char| c == ':' || c == '/' || c == '@' implies !h.contains(c) by {
        if h.contains(c) {
            let k = choose|k: int| 0 <= k < h.len() && h[k] == c;
            assert(is_plain(h[k]));
        }
    }
    assert(!h.contains(':'));
}

/// A host that is read as one alone neither begins nor ends with white space.
proof fn lemma_host_ends(h: Seq<char>)
    requires
        host_port(h) == Some((h, None::<u16>)),
    ensures
        h.len() > 0,
        !text::is_space(h.last()),
{
    let t = text::lower(text::trimmed(h));
    lemma_normalised(h);
    t.index_of_first_ensures(']');
    t.index_of_last_ensures(':');
    assert(h =~= t.take(h.len() as int));
    assert(h =~= t) by {
        if t[0] == '[' {
            let end = t.index_of_first(']')->0;
            assert(t.skip(end + 1).len() == 0);
        }
    }
}

/// The page's address on a host is read as https with its default port, with or without a slash at
/// the end. A host is what is read as one alone; one with a slash or an at sign makes no address.
pub proof fn page_address_reads_back(h: Seq<char>)
    requires
        host_port(h) == Some((h, None::<u16>)),
        !h.contains('/'),
        !h.contains('@'),
    ensures
        origin_of("https://"@ + h) == Some(OriginView { scheme: "https"@, host: h, port: 443 }),
        origin_of("https://"@ + h + seq!['/']) == Some(
            OriginView { scheme: "https"@, host: h, port: 443 },
        ),
{
    reveal_strlit("https://");
    reveal_strlit("https");
    reveal_strlit("http");
    lemma_host_ends(h);
    let s = "https://"@ + h;
    assert(s.last() == h[h.len() - 1]);
    assert(!text::is_space(s[0]));
    assert(text::trimmed(s) == s);
    assert(s.last() != '/') by {
        if s.last() == '/' {
            assert(h[h.len() - 1] == '/');
        }
    }
    assert(text::trim_end_of(s, '/') == s);
    let z = s + seq!['/'];
    assert(z[0] == s[0]);
    assert(z.last() == '/');
    assert(text::trimmed(z) == z);
    assert(z.drop_last() == s);
    assert(text::trim_end_of(z, '/') == s);
    let sep = seq![':', '/', '/'];
    assert(s.subrange(5, 8) =~= sep);
    assert(text::occurs_at(s, sep, 5));
    assert forall|i: int| 0 <= i < 5 implies !text::occurs_at(s, sep, i) by {
        if text::occurs_at(s, sep, i) {
            assert(s.subrange(i, i + 3)[0] == s[i]);
        }
    }
    reveal_with_fuel(text::position, 7);
    assert(text::position(s, sep, 0) == Some(5int));
    assert(s.take(5) =~= "https"@);
    assert(text::lower("https"@) =~= "https"@);
    assert(s.skip(8) =~= h);
}

/// The page itself passes: a request for the PC's Tailscale name from its own https address, by
/// the PC's owner, directly typed or from the page.
pub proof fn own_page_passes(l: AllowView, r: RequestView, slash: bool)
    requires
        l.tailscale is Some,
        host_port(l.tailscale->0.host) == Some((l.tailscale->0.host, None::<u16>)),
        !l.tailscale->0.host.contains('/'),
        !l.tailscale->0.host.contains('@'),
        !is_loopback(l.tailscale->0.host),
        l.tailscale->0.login is Some,
        r.funnel is Absent,
        same_site(r.sec_fetch_site),
        r.host == HdrView::Value(l.tailscale->0.host),
        r.origin is Absent || r.origin == HdrView::Value(
            "https://"@ + l.tailscale->0.host + if slash {
                seq!['/']
            } else {
                Seq::empty()
            },
        ),
        r.tailscale_login is Value,
        l.tailscale->0.login == Some(text::lower(text::trimmed(r.tailscale_login->Value_0))),
    ensures
        l.verdict(r) is Ok,
{
    let h = l.tailscale->0.host;
    page_address_reads_back(h);
    assert("https://"@ + h + Seq::<char>::empty() =~= "https://"@ + h);
    let own = OriginView { scheme: "https"@, host: h, port: 443u16 };
    assert(l.knows(own));
}

/// The letters' case makes no difference to a character's being white space.
proof fn lemma_small_space(c: char)
    ensures
        text::is_space(text::lower_char(c)) == text::is_space(c),
        text::lower_char(text::lower_char(c)) == text::lower_char(c),
{
}

/// Making letters small and trimming can be done in either order.
proof fn lemma_trim_lower(s: Seq<char>)
    ensures
        text::trim_start(text::lower(s)) == text::lower(text::trim_start(s)),
        text::trim_end(text::lower(s)) == text::lower(text::trim_end(s)),
    decreases s.len(),
{
    if s.len() > 0 {
        lemma_small_space(s[0]);
        lemma_small_space(s.last());
        lemma_trim_lower(s.skip(1));
        lemma_trim_lower(s.drop_last());
        assert(text::lower(s).skip(1) =~= text::lower(s.skip(1)));
        assert(text::lower(s).drop_last() =~= text::lower(s.drop_last()));
    }
}

/// Letters that are small already stay.
proof fn lemma_lower_twice(s: Seq<char>)
    ensures
        text::lower(text::lower(s)) == text::lower(s),
{
    assert forall|i: int| 0 <= i < s.len() implies text::lower(text::lower(s))[i] == text::lower(
        s,
    )[i] by {
        lemma_small_space(s[i]);
    }
    assert(text::lower(text::lower(s)) =~= text::lower(s));
}

/// Capitals make no difference in a Host header or a login.
pub proof fn capitals_make_no_difference(l: AllowView, s: Seq<char>)
    ensures
        host_port(text::lower(s)) == host_port(s),
        l.host_ok(text::lower(s)) == l.host_ok(s),
        l.user_ok(HdrView::Value(text::lower(s))) == l.user_ok(HdrView::Value(s)),
{
    lemma_trim_lower(s);
    lemma_trim_lower(text::trim_start(s));
    lemma_lower_twice(text::trimmed(s));
    assert(text::trimmed(text::lower(s)) == text::lower(text::trimmed(s)));
}

/// A known address passes as Host, without its port as well as with it; with any other port only if
/// another known address has that one (or the host is the PC's name for itself). The host is one that
/// is read as one alone.
pub proof fn known_addresses_pass_as_host(l: AllowView, o: OriginView, other: u16)
    requires
        (l.tailscale is Some && l.tailscale->0.host == o.host && o.scheme == "https"@ && o.port
            == 443) || l.extra.contains(o),
        host_port(o.host) == Some((o.host, None::<u16>)),
    ensures
        l.host_ok(o.host),
        l.host_ok(o.host + seq![':'] + number::decimal(o.port as nat)),
        l.host_ok(o.host + seq![':'] + number::decimal(other as nat)) ==> is_loopback(o.host)
            || exists|k: OriginView| #[trigger]
            l.knows(k) && k.host == o.host && k.port == other,
{
    host_name_reads_back(o.host, o.port);
    host_name_reads_back(o.host, other);
    assert(l.knows(o));
    assert(l.serves(o.host, None));
    assert(l.serves(o.host, Some(o.port)));
}

/// Only loopback names and known addresses pass as Host: one that passes has the host of a known
/// address and, if it names a port, that address's port.
pub proof fn only_known_addresses_pass_as_host(l: AllowView, header: Seq<char>)
    requires
        l.host_ok(header),
    ensures
        host_port(header) matches Some((host, port)) && (is_loopback(host) || exists|k: OriginView|
            #[trigger]
            l.knows(k) && k.host == host && (port == None::<u16> || port == Some(k.port))),
{
}

/// The known addresses are the https address of the PC's Tailscale name, with the port 443, and the
/// additional ones; no others.
pub proof fn the_known_addresses(l: AllowView, o: OriginView)
    ensures
        l.knows(o) <==> (l.tailscale is Some && o.scheme == "https"@ && o.host
            == l.tailscale->0.host && o.port == 443) || l.extra.contains(o),
        l.tailscale is None <==> l.tailscale_origin() is None,
{
}

/// A request of an additional address passes: with its Host, with or without the port, and an Origin
/// that reads as this address, if it is not forwarded, same-site and not from the Funnel.
pub proof fn additional_addresses_pass(
    l: AllowView,
    o: OriginView,
    origin: Seq<char>,
    r: RequestView,
)
    requires
        l.extra.contains(o),
        host_port(o.host) == Some((o.host, None::<u16>)),
        !is_loopback(o.host) || o.port == l.port,
        origin_of(origin) == Some(o),
        r.host == HdrView::Value(o.host) || r.host == HdrView::Value(
            o.host + seq![':'] + number::decimal(o.port as nat),
        ),
        r.origin is Absent || r.origin == HdrView::Value(origin),
        r.forwarded_host is Absent,
        r.funnel is Absent,
        r.sec_fetch_site is Absent || r.sec_fetch_site == HdrView::Value("same-origin"@)
            || r.sec_fetch_site == HdrView::Value("none"@),
    ensures
        l.verdict(r) is Ok,
{
    known_addresses_pass_as_host(l, o, o.port);
    assert(l.knows(o));
}

/// The additional addresses are those that are given and can be read, all of them and no others.
pub proof fn valid_additional_addresses_are_taken(v: Seq<Seq<char>>, o: OriginView)
    ensures
        valid_origins(v).contains(o) <==> exists|i: int|
            0 <= i < v.len() && origin_of(#[trigger] v[i]) == Some(o),
    decreases v.len(),
{
    if v.len() > 0 {
        let init = v.drop_last();
        valid_additional_addresses_are_taken(init, o);
        let before = valid_origins(init);
        let all = valid_origins(v);
        if all.contains(o) {
            let k = choose|k: int| 0 <= k < all.len() && all[k] == o;
            if k < before.len() {
                assert(before[k] == o);
                let i = choose|i: int|
                    0 <= i < init.len() && origin_of(#[trigger] init[i]) == Some(o);
                assert(v[i] == init[i]);
            } else {
                assert(v[v.len() - 1] == v.last());
            }
        }
        if exists|i: int| 0 <= i < v.len() && origin_of(#[trigger] v[i]) == Some(o) {
            let i = choose|i: int| 0 <= i < v.len() && origin_of(#[trigger] v[i]) == Some(o);
            if i < init.len() {
                assert(init[i] == v[i]);
                let k = choose|k: int| 0 <= k < before.len() && before[k] == o;
                assert(all[k] == o);
            } else {
                assert(all[all.len() - 1] == o);
            }
        }
    }
}

/// The PC's names for itself, and what a scheme stands for.
pub proof fn names_and_ports(host: Seq<char>, scheme: Seq<char>)
    ensures
        is_loopback("127.0.0.1"@),
        is_loopback("localhost"@),
        is_loopback("[::1]"@),
        is_loopback(host) ==> host == "127.0.0.1"@ || host == "localhost"@ || host == "[::1]"@,
        scheme_port("http"@) == Some(80u16),
        scheme_port("https"@) == Some(443u16),
        scheme_port(scheme) is Some ==> scheme == "http"@ || scheme == "https"@,
{
    reveal_strlit("http");
    reveal_strlit("https");
    assert("http"@.len() != "https"@.len());
}

/// Which Origins pass: those of a loopback name with the server's own port, and else those of the known
/// addresses; one that cannot be read as an address never does.
pub proof fn which_origins_pass(l: AllowView, origin: Seq<char>)
    ensures
        origin_of(origin) is None ==> !l.origin_ok(origin),
        origin_of(origin) matches Some(o) ==> {
            &&& is_loopback(o.host) ==> (l.origin_ok(origin) <==> o.port == l.port)
            &&& !is_loopback(o.host) ==> (l.origin_ok(origin) <==> (l.tailscale is Some && o.scheme
                == "https"@ && o.host == l.tailscale->0.host && o.port == 443)
                || l.extra.contains(o))
        },
{
}

/// Whose requests are forwarded: anyone's if every tailnet user is allowed, else only those that carry
/// the owner's login, whatever blanks are around it and whatever the letters' case.
pub proof fn who_may_be_forwarded(l: AllowView, login: HdrView)
    ensures
        l.any_user ==> l.user_ok(login),
        !l.any_user && l.user_ok(login) ==> login is Value,
        !l.any_user && (l.tailscale is None || l.tailscale->0.login is None) ==> !l.user_ok(login),
        login is Value && l.tailscale is Some && l.tailscale->0.login is Some && !l.any_user ==> (
        l.user_ok(login) <==> text::lower(text::trimmed(login->Value_0))
            == l.tailscale->0.login->0),
{
}

/// An identity that is taken over is held in small letters; nothing else of the list changes.
pub proof fn identities_are_held_in_small_letters(l: AllowView, t: TailscaleView)
    ensures
        ({
            let n = l.with_identity(t);
            &&& n.tailscale is Some
            &&& n.tailscale->0.host == text::lower(t.host)
            &&& t.login is Some ==> n.tailscale->0.login == Some(text::lower(t.login->0))
            &&& t.login is None ==> n.tailscale->0.login is None
            &&& n.port == l.port
            &&& n.extra == l.extra
            &&& n.any_user == l.any_user
        }),
        lowered_identity(None) is None,
        lowered_identity(Some(t)) == l.with_identity(t).tailscale,
{
}

/// Which header a fact is read from, for each of the six.
pub proof fn where_the_facts_come_from(h: Map<Seq<char>, Seq<u8>>)
    ensures
        request_in(h).host is Absent <==> !h.contains_key("host"@),
        request_in(h).origin is Absent <==> !h.contains_key("origin"@),
        request_in(h).sec_fetch_site is Absent <==> !h.contains_key("sec-fetch-site"@),
        request_in(h).forwarded_host is Absent <==> !h.contains_key("x-forwarded-host"@),
        request_in(h).funnel is Absent <==> !h.contains_key("tailscale-funnel-request"@),
        request_in(h).tailscale_login is Absent <==> !h.contains_key("tailscale-user-login"@),
        request_in(h).host matches HdrView::Value(v) ==> vstd::utf8::valid_utf8(h["host"@]) && v
            == vstd::utf8::decode_utf8(h["host"@]),
        request_in(h).origin matches HdrView::Value(v) ==> vstd::utf8::valid_utf8(h["origin"@])
            && v == vstd::utf8::decode_utf8(h["origin"@]),
        request_in(h).sec_fetch_site matches HdrView::Value(v) ==> vstd::utf8::valid_utf8(
            h["sec-fetch-site"@],
        ) && v == vstd::utf8::decode_utf8(h["sec-fetch-site"@]),
        request_in(h).tailscale_login matches HdrView::Value(v) ==> vstd::utf8::valid_utf8(
            h["tailscale-user-login"@],
        ) && v == vstd::utf8::decode_utf8(h["tailscale-user-login"@]),
{
}

/// A header that is there is a value if its bytes are valid UTF-8, and unreadable if they are not.
pub proof fn present_headers_are_seen(h: Map<Seq<char>, Seq<u8>>, name: Seq<char>)
    requires
        h.contains_key(name),
    ensures
        vstd::utf8::valid_utf8(h[name]) ==> header_in(h, name) == HdrView::Value(
            vstd::utf8::decode_utf8(h[name]),
        ),
        !vstd::utf8::valid_utf8(h[name]) ==> header_in(h, name) is Unreadable,
{
}

/// A rejected request is told apart by the first rule that it breaks, in the order of the rules.
pub proof fn the_first_broken_rule_is_named(l: AllowView, r: RequestView)
    ensures
        ({
            let site = r.sec_fetch_site is Absent || r.sec_fetch_site == HdrView::Value("none"@)
                || r.sec_fetch_site == HdrView::Value("same-origin"@);
            let host = r.host is Value && l.host_ok(r.host->Value_0);
            let origin = r.origin is Absent || (r.origin is Value && l.origin_ok(
                r.origin->Value_0,
            ));
            let user = r.forwarded_host is Absent || l.user_ok(r.tailscale_login);
            let v = l.verdict(r);
            &&& v == Err::<(), Denied>(Denied::Funnel) <==> !(r.funnel is Absent)
            &&& v == Err::<(), Denied>(Denied::CrossSite) <==> r.funnel is Absent && !site
            &&& v == Err::<(), Denied>(Denied::MissingHost) <==> r.funnel is Absent && site
                && r.host is Absent
            &&& v == Err::<(), Denied>(Denied::Host) <==> r.funnel is Absent && site && !(r.host
                is Absent) && !host
            &&& v == Err::<(), Denied>(Denied::Origin) <==> r.funnel is Absent && site && host
                && !origin
            &&& v == Err::<(), Denied>(Denied::TailnetUser) <==> r.funnel is Absent && site && host
                && origin && !user
            &&& v is Ok <==> r.funnel is Absent && site && host && origin && user
        }),
{
}

/// The identity is looked up while the name or the login is not known, at once for the first time and
/// then 30 s after the last lookup; never once both are known. It is only worth it for a rejected
/// host or login.
pub proof fn when_the_identity_is_looked_up(a: AccessView, now: u64)
    ensures
        ({
            let known = a.list.tailscale is Some && a.list.tailscale->0.login is Some;
            &&& known ==> !a.probe_due(now)
            &&& !known && a.last_probe is None ==> a.probe_due(now)
            &&& !known && a.last_probe is Some && a.last_probe->0 <= now ==> (a.probe_due(now)
                <==> now - a.last_probe->0 >= 30_000_000_000)
        }),
        AccessView::worth_a_probe(Err(Denied::Host)),
        AccessView::worth_a_probe(Err(Denied::TailnetUser)),
        !AccessView::worth_a_probe(Err(Denied::Funnel)),
        !AccessView::worth_a_probe(Err(Denied::CrossSite)),
        !AccessView::worth_a_probe(Err(Denied::MissingHost)),
        !AccessView::worth_a_probe(Err(Denied::Origin)),
        !AccessView::worth_a_probe(Ok(())),
{
}

/// Within a minute twenty rejections are logged, no more.
pub proof fn twenty_rejections_are_logged_a_minute(w: Window, now: u64)
    requires
        w.start <= now,
    ensures
        now - w.start < 60_000_000_000 ==> (limit::verdict(
            w,
            now,
            REJECT_LOG_WINDOW,
            REJECT_LOG_PER_MINUTE,
        ).allowed <==> w.used < 20),
        now - w.start >= 60_000_000_000 ==> limit::verdict(
            w,
            now,
            REJECT_LOG_WINDOW,
            REJECT_LOG_PER_MINUTE,
        ).allowed,
{
}

/// A text of up to 128 characters is logged as it is shown; a longer one with dots behind.
pub proof fn long_texts_are_marked(s: Seq<char>, shown: Seq<char>)
    ensures
        s.len() <= 128 ==> clipped(s, shown) == shown,
        s.len() > 128 ==> clipped(s, shown) == shown + seq!['.', '.', '.'],
        LOG_FIELD_MAX == 128,
{
    reveal_strlit("...");
    assert("..."@ =~= seq!['.', '.', '.']);
}

/// Every answer forbids framing, sniffing and a referrer.
pub proof fn every_answer_forbids_framing()
    ensures
        response_headers().len() == 4,
        response_headers().contains(("content-security-policy"@, "frame-ancestors 'none'"@)),
        response_headers().contains(("x-frame-options"@, "DENY"@)),
        response_headers().contains(("x-content-type-options"@, "nosniff"@)),
        response_headers().contains(("referrer-policy"@, "no-referrer"@)),
        FORBIDDEN == 403,
{
    let h = response_headers();
    assert(h[0] == ("content-security-policy"@, "frame-ancestors 'none'"@));
    assert(h[1] == ("x-frame-options"@, "DENY"@));
    assert(h[2] == ("x-content-type-options"@, "nosniff"@));
    assert(h[3] == ("referrer-policy"@, "no-referrer"@));
}

/// What a host is taken from: the text in small letters without blanks around it is the host, or the
/// host, a colon and the number of the port. A host in brackets ends with the first closing one; in
/// any other the last colon parts the port off.
pub proof fn what_a_host_is_taken_from(s: Seq<char>)
    ensures
        ({
            let t = text::lower(text::trimmed(s));
            &&& t.len() == 0 ==> host_port(s) is None
            &&& host_port(s) matches Some((h, p)) ==> {
                &&& h.len() > 0
                &&& p is None ==> t == h
                &&& p is Some ==> {
                    &&& t.len() > h.len()
                    &&& t.take(h.len() as int) == h
                    &&& t[h.len() as int] == ':'
                    &&& number::parsed(t.skip(h.len() as int + 1), 65_535) == Some(p->0 as nat)
                }
                &&& t[0] == '[' ==> h.last() == ']' && !h.drop_last().contains(']')
                &&& t[0] != '[' && p is None ==> !h.contains(':')
                &&& t[0] != '[' && p is Some ==> !t.skip(h.len() as int + 1).contains(':')
            }
        }),
{
    let t = text::lower(text::trimmed(s));
    t.index_of_first_ensures(']');
    t.index_of_last_ensures(':');
    if host_port(s) is Some {
        let (h, p) = host_port(s)->0;
        if t[0] == '[' {
            let end = t.index_of_first(']')->0;
            let rest = t.skip(end + 1);
            assert(h == t.take(end + 1));
            assert(forall|i: int| 0 <= i < end ==> #[trigger] h.drop_last()[i] == t[i]);
            if p is Some {
                assert(rest.skip(1) =~= t.skip(h.len() as int + 1));
                assert(rest[0] == t[end + 1]);
            } else {
                assert(h =~= t);
            }
        } else {
            match t.index_of_last(':') {
                Some(i) => {
                    let rest = t.skip(i);
                    assert(h == t.take(i));
                    assert(rest.skip(1) =~= t.skip(h.len() as int + 1));
                    assert(rest.len() > 0);
                    let x = t.skip(h.len() as int + 1);
                    if x.contains(':') {
                        let k = choose|k: int| 0 <= k < x.len() && x[k] == ':';
                        assert(t[i + 1 + k] == ':');
                    }
                },
                None => {},
            }
        }
    }
}

/// Whether a text is a host as it stands: in small letters, without blanks at its ends, and either in
/// brackets or without a colon.
pub open spec fn stands_for_a_host(h: Seq<char>) -> bool {
    &&& h.len() > 0
    &&& forall|i: int| 0 <= i < h.len() ==> !('A' <= #[trigger] h[i] <= 'Z')
    &&& !text::is_space(h[0])
    &&& !text::is_space(h.last())
    &&& if h[0] == '[' {
        h.last() == ']' && !h.drop_last().contains(']')
    } else {
        !h.contains(':')
    }
}

/// Every such text is read as a host, alone as well as with a colon and a port number behind; with
/// anything else behind the colon it is not read at all.
pub proof fn hosts_are_read(h: Seq<char>, x: Seq<char>)
    requires
        stands_for_a_host(h),
        !x.contains(':'),
        forall|i: int| 0 <= i < x.len() ==> !('A' <= #[trigger] x[i] <= 'Z'),
        x.len() > 0 ==> !text::is_space(x.last()),
    ensures
        host_port(h) == Some((h, None::<u16>)),
        host_port(h + seq![':'] + x) == (match number::parsed(x, 65_535) {
            Some(p) => Some((h, Some(p as u16))),
            None => None,
        }),
{
    let w = h + seq![':'] + x;
    assert forall|i: int| 0 <= i < w.len() implies !('A' <= #[trigger] w[i] <= 'Z') by {
        if i < h.len() {
            assert(w[i] == h[i]);
        } else if i > h.len() {
            assert(w[i] == x[i - h.len() - 1]);
        }
    }
    assert(w[0] == h[0]);
    assert(!text::is_space(w.last())) by {
        if x.len() > 0 {
            assert(w.last() == x.last());
        } else {
            assert(w.last() == ':');
        }
    }
    lemma_stays(w);
    lemma_stays(h);
    assert(w.take(h.len() as int) =~= h);
    let rest = w.skip(h.len() as int);
    assert(rest.skip(1) =~= x);
    assert(rest[0] == ':');
    if h[0] == '[' {
        let end = h.len() - 1;
        h.index_of_first_ensures(']');
        w.index_of_first_ensures(']');
        assert(h[end] == ']' && w[end] == ']');
        let k = w.index_of_first(']')->0;
        let n = h.index_of_first(']')->0;
        if n < end {
            assert(h.drop_last()[n] == ']');
        }
        if k < end {
            assert(w[k] == h[k]);
            assert(h.drop_last()[k] == ']');
        }
        assert(k == end && n == end);
        assert(h.take(end + 1) =~= h);
        assert(h.skip(end + 1) =~= Seq::empty());
    } else {
        h.index_of_last_ensures(':');
        w.index_of_last_ensures(':');
        assert(w[h.len() as int] == ':');
        let k = w.index_of_last(':')->0;
        if k > h.len() {
            assert(x[k - h.len() - 1] == ':');
        }
        assert(k == h.len());
    }
}

/// How an address is read: what stands before `://` is the scheme, whatever its letters' case, and
/// only http and https are one; what stands behind is the host with or without a port, where the port
/// of the scheme is taken if none is given. A path or a user makes it none; a slash at the end does
/// not matter.
pub proof fn addresses_are_read(head: Seq<char>, a: Seq<char>)
    requires
        head.len() > 0,
        !text::is_space(head[0]),
        !head.contains(':'),
        a.len() > 0,
        !text::is_space(a.last()),
        a.last() != '/',
    ensures
        ({
            let s = head + seq![':', '/', '/'] + a;
            let scheme = text::lower(head);
            let known = scheme == "http"@ || scheme == "https"@;
            let plain = !a.contains('/') && !a.contains('@');
            &&& origin_of(s) is Some <==> known && plain && host_port(a) is Some
            &&& origin_of(s) matches Some(o) ==> host_port(a) matches Some((host, port)) && {
                &&& o.scheme == scheme
                &&& o.host == host
                &&& port is Some ==> o.port == port->0
                &&& port is None && scheme == "http"@ ==> o.port == 80
                &&& port is None && scheme == "https"@ ==> o.port == 443
            }
            &&& origin_of(s.push('/')) == origin_of(s)
        }),
{
    let sep = seq![':', '/', '/'];
    let s = head + sep + a;
    assert(s[0] == head[0]);
    assert(s.last() == a.last());
    assert(text::trimmed(s) == s);
    assert(text::trim_end_of(s, '/') == s);
    let z = s.push('/');
    assert(z[0] == s[0]);
    assert(z.last() == '/');
    assert(text::trimmed(z) == z);
    assert(z.drop_last() =~= s);
    assert(text::trim_end_of(z, '/') == s);
    text::the_first_place_is_found(s, sep, 0);
    let n = head.len() as int;
    assert(s.subrange(n, n + sep.len()) =~= sep);
    assert(text::position(s, sep, 0) is Some);
    let i = text::position(s, sep, 0)->0;
    assert(i <= n);
    assert(s.subrange(i, i + sep.len())[0] == s[i]);
    if i < n {
        assert(head[i] == ':');
    }
    assert(s.take(n) =~= head);
    assert(s.skip(n + 3) =~= a);
    reveal_strlit("http");
    reveal_strlit("https");
    assert("http"@.len() != "https"@.len());
}

/// A text without `://` is no address.
pub proof fn an_address_names_its_scheme(s: Seq<char>)
    requires
        origin_of(s) is Some,
    ensures
        exists|i: int|
            0 <= i && i + 3 <= s.len() && #[trigger] s.subrange(i, i + 3) == seq![':', '/', '/'],
        origin_of(s)->0.scheme == "http"@ || origin_of(s)->0.scheme == "https"@,
{
    let u = text::trimmed(s);
    let t = text::trim_end_of(u, '/');
    let sep = seq![':', '/', '/'];
    text::the_first_place_is_found(t, sep, 0);
    text::the_run_at_the_end_goes(u, '/');
    text::trimming_leaves_the_middle(s);
    let (a, b) = choose|a: int, b: int|
        0 <= a <= b <= s.len() && u == #[trigger] s.subrange(a, b) && (forall|i: int|
            0 <= i < a ==> text::is_space(#[trigger] s[i])) && (forall|i: int|
            b <= i < s.len() ==> text::is_space(#[trigger] s[i])) && (a < b ==> !text::is_space(
            s[a],
        ) && !text::is_space(s[b - 1]));
    let i = text::position(t, sep, 0)->0;
    assert(s.subrange(a + i, a + i + 3) =~= t.subrange(i, i + 3));
}

/// A request that passes, or that no identity can help, is decided at once by the rules; one rejected
/// for its host or login is decided too unless a lookup is due. A lookup is asked for with the reason,
/// and its time is kept. Nothing else of the guard changes.
pub proof fn the_first_look_follows_the_rules(a: AccessView, r: RequestView, now: u64)
    ensures
        ({
            let (b, step) = a.first_look(r, now);
            let v = a.list.verdict(r);
            let helps = v == Err::<(), Denied>(Denied::Host) || v == Err::<(), Denied>(
                Denied::TailnetUser,
            );
            &&& !helps || !a.probe_due(now) ==> step == GuardStep::Decided(v) && b == a
            &&& helps && a.probe_due(now) ==> {
                &&& step == GuardStep::Probe(v->Err_0)
                &&& b.last_probe == Some(now)
                &&& b.list == a.list
                &&& b.reject_log == a.reject_log
            }
        }),
{
}

/// After a lookup the request is judged by the rules with the new identity, which is kept; if nothing
/// was found, the reason from before stands and nothing changes.
pub proof fn the_second_look_follows_the_rules(
    a: AccessView,
    r: RequestView,
    before: Denied,
    t: TailscaleView,
)
    ensures
        a.second_look(r, before, None) == (a, Err::<(), Denied>(before)),
        ({
            let (b, v) = a.second_look(r, before, Some(t));
            &&& v == b.list.verdict(r)
            &&& b.list.tailscale is Some
            &&& b.list.tailscale->0.host == text::lower(t.host)
            &&& b.list.port == a.list.port
            &&& b.list.extra == a.list.extra
            &&& b.list.any_user == a.list.any_user
            &&& b.last_probe == a.last_probe
            &&& b.reject_log == a.reject_log
        }),
{
}

/// Every additional address passes as Host with its port, however its host is written: the text that it
/// was read from makes its host and port one that is let through.
pub proof fn additional_addresses_pass_with_their_port(l: AllowView, s: Seq<char>)
    requires
        origin_of(s) is Some,
        l.extra.contains(origin_of(s)->0),
    ensures
        l.host_ok(origin_of(s)->0.host + seq![':'] + number::decimal(origin_of(s)->0.port as nat)),
{
    let t = text::trim_end_of(text::trimmed(s), '/');
    let i = text::position(t, seq![':', '/', '/'], 0)->0;
    let o = origin_of(s)->0;
    host_name_reads_back(t.skip(i + 3), o.port);
    assert(l.knows(o));
    assert(l.serves(o.host, Some(o.port)));
}

} // verus!
