//! The control channel: JSON messages on the WebSocket, what they ask for and what is replied.

use vstd::prelude::*;
use crate::i18n;
use crate::i18n::Device;
use crate::json;
use crate::json::Json;
use crate::limit;
use crate::limit::{Verdict, Window};
use crate::text;
use serde_json::Value;

verus! {

/// Client "log" messages: at most this many per window, the rest is counted.
pub const CLIENT_LOG_BURST: u32 = 20;

/// The window of the limit on client "log" messages: 10 s.
pub const CLIENT_LOG_WINDOW: u64 = 10_000_000_000;

/// Client-supplied strings are cut to this many characters in the log.
pub const CLIENT_FIELD_MAX: usize = 200;

// ---------------------------------------------------------------------------------------------
// Rate limit
// ---------------------------------------------------------------------------------------------

/// Rate limit for client "log" messages per connection.
#[derive(Debug, Clone, Copy, PartialEq, Eq, Structural)]
pub struct LogBudget {
    window: Window,
}

impl View for LogBudget {
    type V = Window;

    closed spec fn view(&self) -> Window {
        self.window
    }
}

impl LogBudget {
    /// A full budget, from now on.
    pub fn new(now: u64) -> (r: Self)
        ensures
            r@ == limit::fresh(now),
    {
        LogBudget { window: Window::new(now) }
    }

    /// Whether a message at `now` is logged; at the start of a new window also how many were dropped
    /// in the one before.
    pub fn allow(&mut self, now: u64) -> (r: Verdict)
        ensures
            final(self)@ == limit::admitted(old(self)@, now, CLIENT_LOG_WINDOW, CLIENT_LOG_BURST),
            r == limit::verdict(old(self)@, now, CLIENT_LOG_WINDOW, CLIENT_LOG_BURST),
    {
        self.window.count(now, CLIENT_LOG_WINDOW, CLIENT_LOG_BURST)
    }
}

// ---------------------------------------------------------------------------------------------
// Telemetry
// ---------------------------------------------------------------------------------------------

/// Only these fields of client telemetry are logged, each cut and escaped, so a client can neither
/// forge log lines (newlines) nor write large amounts of text.
pub open spec fn log_fields() -> Seq<Seq<char>> {
    seq![
        "ev"@,
        "vis"@,
        "standalone"@,
        "ctx"@,
        "running"@,
        "path"@,
        "state"@,
        "ice"@,
        "code"@,
        "reason"@,
        "enabled"@,
        "ready"@,
        "muted"@,
        "ua"@,
        "t"@,
    ]
}

/// What is logged of a field's value, before it is escaped: strings are cut, numbers and booleans
/// are written as in JSON, everything else is left out.
pub open spec fn field_text(j: Json) -> Option<Seq<char>> {
    match j {
        Json::Text(s) => Some(text::cut(s, CLIENT_FIELD_MAX as nat)),
        Json::Number { text, .. } => Some(text),
        Json::Bool(true) => Some("true"@),
        Json::Bool(false) => Some("false"@),
        _ => None,
    }
}

/// The escaped text of the field `key`, if it is logged.
pub open spec fn shown(j: Json, key: Seq<char>) -> Option<Seq<char>> {
    match json::member(j, key) {
        Some(x) => match field_text(x) {
            Some(t) => Some(text::escaped(t)),
            None => None,
        },
        None => None,
    }
}

/// The texts of all logged fields, in their fixed order.
pub open spec fn shown_fields(j: Json) -> Seq<Option<Seq<char>>> {
    log_fields().map_values(|key: Seq<char>| shown(j, key))
}

/// The fields that have a text, written `key=text` with spaces between them.
pub open spec fn joined(keys: Seq<Seq<char>>, texts: Seq<Option<Seq<char>>>) -> Seq<char>
    decreases keys.len(),
{
    if keys.len() == 0 {
        seq![]
    } else {
        let before = joined(keys.drop_last(), texts.drop_last());
        match texts.last() {
            Some(t) => before + (if before.len() > 0 {
                " "@
            } else {
                seq![]
            }) + keys.last() + "="@ + t,
            None => before,
        }
    }
}

/// The views of optional strings.
pub open spec fn texts_view(texts: Seq<Option<String>>) -> Seq<Option<Seq<char>>> {
    texts.map_values(
        |t: Option<String>|
            match t {
                Some(s) => Some(s@),
                None => None,
            },
    )
}

/// The names of the logged fields.
fn field_names() -> (r: Vec<&'static str>)
    ensures
        r@.map_values(|s: &'static str| s@) == log_fields(),
        r@.len() == 15,
{
    let mut r: Vec<&'static str> = Vec::new();
    r.push("ev");
    r.push("vis");
    r.push("standalone");
    r.push("ctx");
    r.push("running");
    r.push("path");
    r.push("state");
    r.push("ice");
    r.push("code");
    r.push("reason");
    r.push("enabled");
    r.push("ready");
    r.push("muted");
    r.push("ua");
    r.push("t");
    r
}

/// Writes the fields that have a text as `key=text`, with spaces between them.
pub fn join_fields(keys: &[&'static str], texts: &[Option<String>]) -> (r: String)
    requires
        keys.len() == texts.len(),
    ensures
        r@ == joined(keys@.map_values(|s: &'static str| s@), texts_view(texts@)),
{
    let mut out: String = "".to_owned();
    let ghost names = keys@.map_values(|s: &'static str| s@);
    let ghost shown = texts_view(texts@);
    proof {
        reveal_strlit("");
        assert(out@ =~= joined(names.take(0), shown.take(0)));
    }
    let mut i: usize = 0;
    while i < keys.len()
        invariant
            i <= keys.len(),
            keys.len() == texts.len(),
            names == keys@.map_values(|s: &'static str| s@),
            shown == texts_view(texts@),
            out@ == joined(names.take(i as int), shown.take(i as int)),
        decreases keys.len() - i,
    {
        proof {
            let n = names.take(i + 1);
            let t = shown.take(i + 1);
            assert(n.drop_last() =~= names.take(i as int));
            assert(t.drop_last() =~= shown.take(i as int));
            assert(n.last() == keys@[i as int]@);
            assert(t.last() == shown[i as int]);
        }
        if let Some(t) = &texts[i] {
            let ghost before = out@;
            if !is_empty(&out) {
                out.append(" ");
            }
            out.append(keys[i]);
            out.append("=");
            out.append(t);
            assert(out@ =~= before + (if before.len() > 0 {
                " "@
            } else {
                seq![]
            }) + keys@[i as int]@ + "="@ + t@);
        }
        i = i + 1;
    }
    proof {
        assert(names.take(i as int) =~= names);
        assert(shown.take(i as int) =~= shown);
    }
    out
}

/// Whether a text has no characters.
fn is_empty(s: &String) -> (r: bool)
    ensures
        r == (s@.len() == 0),
{
    text::chars_of(s).len() == 0
}

/// What is logged of a field's value, before it is escaped.
fn field_value(v: &Value) -> (r: Option<String>)
    ensures
        match r {
            Some(s) => field_text(json::json_of(*v)) == Some(s@),
            None => field_text(json::json_of(*v)) is None,
        },
{
    if let Some(s) = json::as_str(v) {
        let cut = text::take_chars(&text::chars_of(s), CLIENT_FIELD_MAX);
        Some(text::string_of(&cut))
    } else if let Some(n) = json::as_number_text(v) {
        Some(n)
    } else if let Some(b) = json::as_bool(v) {
        if b {
            Some("true".to_owned())
        } else {
            Some("false".to_owned())
        }
    } else {
        None
    }
}

/// The fields of a client's message that go into the log: known names only, each cut and escaped.
/// The result never holds a line feed.
pub fn client_fields(v: &Value) -> (r: String)
    ensures
        r@ == joined(log_fields(), shown_fields(json::json_of(*v))),
        !r@.contains('\n'),
{
    let keys = field_names();
    let ghost j = json::json_of(*v);
    let ghost names = keys@.map_values(|s: &'static str| s@);
    let mut texts: Vec<Option<String>> = Vec::new();
    let mut i: usize = 0;
    while i < keys.len()
        invariant
            i <= keys.len(),
            i == texts@.len(),
            keys.len() == 15,
            j == json::json_of(*v),
            names == keys@.map_values(|s: &'static str| s@),
            forall|k: int|
                0 <= k < i ==> #[trigger] texts_view(texts@)[k] == shown(j, names[k]),
            forall|k: int|
                0 <= k < i && texts_view(texts@)[k] is Some ==> !(
                #[trigger] texts_view(texts@)[k])->0.contains('\n'),
        decreases keys.len() - i,
    {
        let ghost before = texts@;
        let shown_text: Option<String> = match json::get(v, keys[i]) {
            Some(val) => match field_value(val) {
                Some(t) => Some(text::escape(&t)),
                None => None,
            },
            None => None,
        };
        texts.push(shown_text);
        proof {
            assert forall|k: int| 0 <= k < i + 1 implies #[trigger] texts_view(texts@)[k] == shown(
                j,
                names[k],
            ) by {
                if k < i {
                    assert(texts_view(texts@)[k] == texts_view(before)[k]);
                }
            }
            assert forall|k: int| 0 <= k < i + 1 && texts_view(texts@)[k] is Some implies !(
            #[trigger] texts_view(texts@)[k])->0.contains('\n') by {
                if k < i {
                    assert(texts_view(texts@)[k] == texts_view(before)[k]);
                }
            }
        }
        i = i + 1;
    }
    proof {
        assert(texts_view(texts@) =~= shown_fields(j));
        lemma_no_newline_in_names();
        no_newline_in_joined_fields(log_fields(), shown_fields(j));
    }
    join_fields(&keys, &texts)
}

/// The names of the logged fields hold no line feed.
proof fn lemma_no_newline_in_names()
    ensures
        forall|i: int| 0 <= i < log_fields().len() ==> !(#[trigger] log_fields()[i]).contains('\n'),
{
    reveal_strlit("ev");
    reveal_strlit("vis");
    reveal_strlit("standalone");
    reveal_strlit("ctx");
    reveal_strlit("running");
    reveal_strlit("path");
    reveal_strlit("state");
    reveal_strlit("ice");
    reveal_strlit("code");
    reveal_strlit("reason");
    reveal_strlit("enabled");
    reveal_strlit("ready");
    reveal_strlit("muted");
    reveal_strlit("ua");
    reveal_strlit("t");
}

/// A client cannot forge log lines: fields whose names and texts hold no line feed are written
/// without one.
pub proof fn no_newline_in_joined_fields(keys: Seq<Seq<char>>, texts: Seq<Option<Seq<char>>>)
    requires
        keys.len() == texts.len(),
        forall|i: int| 0 <= i < keys.len() ==> !(#[trigger] keys[i]).contains('\n'),
        forall|i: int|
            0 <= i < texts.len() && texts[i] is Some ==> !(#[trigger] texts[i])->0.contains('\n'),
    ensures
        !joined(keys, texts).contains('\n'),
    decreases keys.len(),
{
    if keys.len() > 0 {
        let k = keys.drop_last();
        let t = texts.drop_last();
        assert(forall|i: int| 0 <= i < k.len() ==> k[i] == keys[i]);
        assert(forall|i: int| 0 <= i < t.len() ==> t[i] == texts[i]);
        no_newline_in_joined_fields(k, t);
        reveal_strlit(" ");
        reveal_strlit("=");
        let n = keys.len() - 1;
        assert(!keys[n].contains('\n'));
        if texts[n] is Some {
            assert(!texts[n]->0.contains('\n'));
            let before = joined(k, t);
            let sep: Seq<char> = if before.len() > 0 {
                " "@
            } else {
                seq![]
            };
            let all = before + sep + keys[n] + "="@ + texts[n]->0;
            assert(all == joined(keys, texts));
            if all.contains('\n') {
                let i = choose|i: int| 0 <= i < all.len() && all[i] == '\n';
                let a = before.len() as int;
                let b = a + sep.len();
                let c = b + keys[n].len();
                if i < a {
                    assert(before[i] == '\n');
                    assert(before.contains('\n'));
                } else if i < b {
                    assert(sep[i - a] == '\n');
                } else if i < c {
                    assert(keys[n][i - b] == '\n');
                } else if i < c + 1 {
                    assert("="@[i - c] == '\n');
                } else {
                    assert(texts[n]->0[i - c - 1] == '\n');
                }
            }
        }
    }
}

/// Fields with unknown names change nothing in the log: two messages that agree on the known fields
/// are logged alike.
pub proof fn only_known_fields_are_logged(a: Json, b: Json)
    requires
        forall|i: int|
            0 <= i < log_fields().len() ==> json::member(a, #[trigger] log_fields()[i])
                == json::member(b, log_fields()[i]),
    ensures
        joined(log_fields(), shown_fields(a)) == joined(log_fields(), shown_fields(b)),
{
    assert(shown_fields(a) =~= shown_fields(b));
}

// ---------------------------------------------------------------------------------------------
// Messages
// ---------------------------------------------------------------------------------------------

/// What a control message asks for.
#[derive(Debug)]
pub enum Control {
    /// A latency probe with the value to echo, null if it has none.
    Ping { t: Value },
    /// A WebRTC offer; without a text there is nothing to answer.
    Offer { sdp: Option<String> },
    /// Telemetry for the log.
    Log,
    /// The first message of a page, with the kind of device it reports.
    Hello { device: Device },
    /// Anything else; it is ignored.
    Unknown,
}

/// What a control message asks for.
#[verifier::ext_equal]
pub enum ControlView {
    Ping { t: Json },
    Offer { sdp: Option<Seq<char>> },
    Log,
    Hello { device: Device },
    Unknown,
}

impl View for Control {
    type V = ControlView;

    open spec fn view(&self) -> ControlView {
        match *self {
            Control::Ping { t } => ControlView::Ping { t: json::json_of(t) },
            Control::Offer { sdp } => ControlView::Offer {
                sdp: match sdp {
                    Some(s) => Some(s@),
                    None => None,
                },
            },
            Control::Log => ControlView::Log,
            Control::Hello { device } => ControlView::Hello { device },
            Control::Unknown => ControlView::Unknown,
        }
    }
}

/// What a message asks for, by its "type".
pub open spec fn control_of(j: Json) -> ControlView {
    match json::maybe_string(json::member(j, "type"@)) {
        Some(kind) => if kind == "ping"@ {
            ControlView::Ping {
                t: match json::member(j, "t"@) {
                    Some(t) => t,
                    None => Json::Null,
                },
            }
        } else if kind == "offer"@ {
            ControlView::Offer { sdp: json::maybe_string(json::member(j, "sdp"@)) }
        } else if kind == "log"@ {
            ControlView::Log
        } else if kind == "hello"@ {
            ControlView::Hello {
                device: i18n::device_of(json::maybe_string(json::member(j, "device"@))),
            }
        } else {
            ControlView::Unknown
        },
        None => ControlView::Unknown,
    }
}

/// The characters of the member `key`, if it is there and a string.
fn member_text<'a>(v: &'a Value, key: &str) -> (r: Option<&'a str>)
    ensures
        match r {
            Some(s) => json::maybe_string(json::member(json::json_of(*v), key@)) == Some(s@),
            None => json::maybe_string(json::member(json::json_of(*v), key@)) is None,
        },
{
    match json::get(v, key) {
        Some(x) => json::as_str(x),
        None => None,
    }
}

/// What a message asks for.
pub fn read_control(v: &Value) -> (r: Control)
    ensures
        r@ == control_of(json::json_of(*v)),
{
    let Some(kind) = member_text(v, "type") else {
        return Control::Unknown;
    };
    if text::same(kind, "ping") {
        match json::get(v, "t") {
            Some(t) => Control::Ping { t: json::copy_of(t) },
            None => Control::Ping { t: json::null() },
        }
    } else if text::same(kind, "offer") {
        match member_text(v, "sdp") {
            Some(s) => Control::Offer { sdp: Some(s.to_owned()) },
            None => Control::Offer { sdp: None },
        }
    } else if text::same(kind, "log") {
        Control::Log
    } else if text::same(kind, "hello") {
        Control::Hello { device: Device::from_hello(member_text(v, "device")) }
    } else {
        Control::Unknown
    }
}

// ---------------------------------------------------------------------------------------------
// Replies
// ---------------------------------------------------------------------------------------------

/// The reply to a ping: the value that it carried and the time here.
pub open spec fn pong(t: Json, server_t: Json) -> Json {
    Json::Object(
        json::no_keys().insert("type"@, Json::Text("pong"@)).insert("t"@, t).insert(
            "server_t"@,
            server_t,
        ),
    )
}

/// The reply to a hello: who this is and the time here.
pub open spec fn welcome(host: Seq<char>, version: Seq<char>, server_t: Json) -> Json {
    Json::Object(
        json::no_keys().insert("type"@, Json::Text("welcome"@)).insert(
            "host"@,
            Json::Text(host),
        ).insert("rtc"@, Json::Bool(true)).insert("version"@, Json::Text(version)).insert(
            "server_t"@,
            server_t,
        ),
    )
}

/// The reply to an offer that was accepted.
pub open spec fn answer(sdp: Seq<char>) -> Json {
    Json::Object(
        json::no_keys().insert("type"@, Json::Text("answer"@)).insert("sdp"@, Json::Text(sdp)),
    )
}

/// The reply to an offer that was rejected.
pub open spec fn rejection(message: Seq<char>) -> Json {
    Json::Object(
        json::no_keys().insert("type"@, Json::Text("error"@)).insert(
            "message"@,
            Json::Text(message),
        ),
    )
}

/// The reply to a ping.
pub fn pong_reply(t: Value, server_t: Value) -> (r: String)
    ensures
        r@ == json::json_written(pong(json::json_of(t), json::json_of(server_t))),
{
    let mut m = json::no_members();
    json::put(&mut m, "type", json::string("pong"));
    json::put(&mut m, "t", t);
    json::put(&mut m, "server_t", server_t);
    json::write(&json::object(m))
}

/// The reply to a hello.
pub fn welcome_reply(host: &str, version: &str, server_t: Value) -> (r: String)
    ensures
        r@ == json::json_written(welcome(host@, version@, json::json_of(server_t))),
{
    let mut m = json::no_members();
    json::put(&mut m, "type", json::string("welcome"));
    json::put(&mut m, "host", json::string(host));
    json::put(&mut m, "rtc", json::boolean(true));
    json::put(&mut m, "version", json::string(version));
    json::put(&mut m, "server_t", server_t);
    json::write(&json::object(m))
}

/// The keys of the replies are not the one reserved for raw JSON.
proof fn lemma_reserved_key()
    ensures
        "type"@ != "$serde_json::private::RawValue"@,
        "sdp"@ != "$serde_json::private::RawValue"@,
        "message"@ != "$serde_json::private::RawValue"@,
{
    reveal_strlit("type");
    reveal_strlit("sdp");
    reveal_strlit("message");
    reveal_strlit("$serde_json::private::RawValue");
    assert("$serde_json::private::RawValue"@.len() == 30);
    assert("type"@.len() == 4 && "sdp"@.len() == 3 && "message"@.len() == 7);
}

/// The reply to an offer that was accepted; whoever reads it gets the answer as it was.
pub fn answer_reply(sdp: &str) -> (r: String)
    ensures
        r@ == json::json_written(answer(sdp@)),
        json::json_text(vstd::utf8::encode_utf8(r@)) == Some(answer(sdp@)),
{
    let mut m = json::no_members();
    json::put(&mut m, "type", json::string("answer"));
    json::put(&mut m, "sdp", json::string(sdp));
    proof {
        lemma_reserved_key();
    }
    json::write(&json::object(m))
}

/// The reply to an offer that was rejected; whoever reads it gets the message as it was.
pub fn error_reply(message: &str) -> (r: String)
    ensures
        r@ == json::json_written(rejection(message@)),
        json::json_text(vstd::utf8::encode_utf8(r@)) == Some(rejection(message@)),
{
    let mut m = json::no_members();
    json::put(&mut m, "type", json::string("error"));
    json::put(&mut m, "message", json::string(message));
    proof {
        lemma_reserved_key();
    }
    json::write(&json::object(m))
}

/// The reply that a message gets at once: a ping gets a pong and a hello gets a welcome. An offer is
/// replied to once it was tried; anything else gets no reply.
pub open spec fn reply_to(
    c: ControlView,
    host: Seq<char>,
    version: Seq<char>,
    server_t: Json,
) -> Option<Json> {
    match c {
        ControlView::Ping { t } => Some(pong(t, server_t)),
        ControlView::Hello { .. } => Some(welcome(host, version, server_t)),
        _ => None,
    }
}

/// The reply to an offer that was tried: the answer, or why it was rejected.
pub open spec fn outcome_of(tried: Result<Seq<char>, Seq<char>>) -> Json {
    match tried {
        Ok(sdp) => answer(sdp),
        Err(message) => rejection(message),
    }
}

/// The reply that a message gets at once, if any.
pub fn reply(control: &Control, host: &str, version: &str, server_t: Value) -> (r: Option<String>)
    ensures
        match reply_to(control@, host@, version@, json::json_of(server_t)) {
            Some(j) => r is Some && r->0@ == json::json_written(j),
            None => r is None,
        },
{
    match control {
        Control::Ping { t } => Some(pong_reply(json::copy_of(t), server_t)),
        Control::Hello { .. } => Some(welcome_reply(host, version, server_t)),
        _ => None,
    }
}

/// The reply to an offer that was tried; whoever reads it gets the answer or the message as it was.
pub fn offer_reply(tried: &Result<String, String>) -> (r: String)
    ensures
        ({
            let j = outcome_of(
                match *tried {
                    Ok(sdp) => Ok(sdp@),
                    Err(message) => Err(message@),
                },
            );
            &&& r@ == json::json_written(j)
            &&& json::json_text(vstd::utf8::encode_utf8(r@)) == Some(j)
        }),
{
    match tried {
        Ok(sdp) => answer_reply(sdp),
        Err(message) => error_reply(message),
    }
}

/// Which message gets which reply, by their types: "ping" gets "pong", "hello" gets "welcome", an
/// "offer" that was tried gets "answer" or "error", and no other message gets one.
pub proof fn replies_follow_the_type(
    j: Json,
    host: Seq<char>,
    version: Seq<char>,
    server_t: Json,
    tried: Result<Seq<char>, Seq<char>>,
)
    ensures
        ({
            let asked = json::maybe_string(json::member(j, "type"@));
            let given = match reply_to(control_of(j), host, version, server_t) {
                Some(r) => json::maybe_string(json::member(r, "type"@)),
                None => None,
            };
            &&& asked == Some("ping"@) ==> given == Some("pong"@)
            &&& asked == Some("hello"@) ==> given == Some("welcome"@)
            &&& asked != Some("ping"@) && asked != Some("hello"@) ==> reply_to(
                control_of(j),
                host,
                version,
                server_t,
            ) is None
            &&& control_of(j) is Offer <==> asked == Some("offer"@)
        }),
        json::maybe_string(json::member(outcome_of(tried), "type"@)) == Some(
            if tried is Ok {
                "answer"@
            } else {
                "error"@
            },
        ),
{
    reveal_strlit("ping");
    reveal_strlit("offer");
    reveal_strlit("log");
    reveal_strlit("hello");
    assert("ping"@.len() == 4 && "offer"@.len() == 5 && "log"@.len() == 3 && "hello"@.len() == 5);
    assert("hello"@[0] == 'h' && "offer"@[0] == 'o');
    reveal_strlit("type");
    reveal_strlit("t");
    reveal_strlit("server_t");
    reveal_strlit("host");
    reveal_strlit("rtc");
    reveal_strlit("version");
    reveal_strlit("sdp");
    reveal_strlit("message");
    assert("type"@[0] == 't' && "host"@[0] == 'h' && "type"@.len() == 4 && "host"@.len() == 4);
    assert("t"@.len() == 1 && "server_t"@.len() == 8 && "rtc"@.len() == 3 && "version"@.len() == 7
        && "sdp"@.len() == 3 && "message"@.len() == 7);
}

/// A pong carries the value that the ping carried, null if it had none.
pub proof fn pong_echoes_the_ping(ping: Json, server_t: Json)
    requires
        control_of(ping) is Ping,
    ensures
        json::member(pong(control_of(ping)->t, server_t), "t"@) == Some(
            match json::member(ping, "t"@) {
                Some(t) => t,
                None => Json::Null,
            },
        ),
        json::maybe_string(json::member(pong(control_of(ping)->t, server_t), "type"@)) == Some(
            "pong"@,
        ),
{
    reveal_strlit("t");
    reveal_strlit("server_t");
    reveal_strlit("type");
    assert("t"@.len() == 1 && "type"@.len() == 4 && "server_t"@.len() == 8);
}

/// The messages that are known, by the text of their member "type": a ping with what it carries, an
/// offer with the text of its "sdp", a log message and a greeting with its device. Anything else is
/// unknown.
pub proof fn what_a_message_asks_for(m: Map<Seq<char>, Json>, kind: Seq<char>, s: Seq<char>)
    requires
        m.contains_key("type"@),
        m["type"@] == Json::Text(kind),
    ensures
        ({
            let c = control_of(Json::Object(m));
            &&& kind == "ping"@ && m.contains_key("t"@) ==> c == ControlView::Ping { t: m["t"@] }
            &&& kind == "ping"@ && !m.contains_key("t"@) ==> c == ControlView::Ping { t: Json::Null }
            &&& kind == "offer"@ && m.contains_key("sdp"@) && m["sdp"@] == Json::Text(s) ==> c
                == ControlView::Offer { sdp: Some(s) }
            &&& kind == "offer"@ && (!m.contains_key("sdp"@) || !(m["sdp"@] is Text)) ==> c
                == ControlView::Offer { sdp: None }
            &&& kind == "log"@ ==> c is Log
            &&& kind == "hello"@ && m.contains_key("device"@) && m["device"@] == Json::Text(s) ==> c
                == ControlView::Hello { device: i18n::device_of(Some(s)) }
            &&& kind == "hello"@ && (!m.contains_key("device"@) || !(m["device"@] is Text)) ==> c
                == ControlView::Hello { device: i18n::device_of(None) }
            &&& kind != "ping"@ && kind != "offer"@ && kind != "log"@ && kind != "hello"@ ==> c
                is Unknown
        }),
{
    reveal_strlit("ping");
    reveal_strlit("offer");
    reveal_strlit("log");
    reveal_strlit("hello");
    assert("ping"@.len() == 4 && "offer"@.len() == 5 && "log"@.len() == 3 && "hello"@.len() == 5);
    assert("hello"@[0] == 'h' && "offer"@[0] == 'o');
}

/// A message that is no object, or whose "type" is missing or no text, is unknown.
pub proof fn messages_need_a_type(j: Json)
    requires
        !(j is Object) || !j->Object_0.contains_key("type"@) || !(j->Object_0["type"@] is Text),
    ensures
        control_of(j) is Unknown,
{
}

/// The keys of the replies differ.
proof fn lemma_reply_keys()
    ensures
        "type"@ != "t"@,
        "type"@ != "server_t"@,
        "t"@ != "server_t"@,
        "type"@ != "host"@,
        "type"@ != "rtc"@,
        "type"@ != "version"@,
        "host"@ != "rtc"@,
        "host"@ != "version"@,
        "host"@ != "server_t"@,
        "rtc"@ != "version"@,
        "rtc"@ != "server_t"@,
        "version"@ != "server_t"@,
        "type"@ != "sdp"@,
        "type"@ != "message"@,
{
    reveal_strlit("type");
    reveal_strlit("t");
    reveal_strlit("server_t");
    reveal_strlit("host");
    reveal_strlit("rtc");
    reveal_strlit("version");
    reveal_strlit("sdp");
    reveal_strlit("message");
    assert("type"@[0] == 't' && "host"@[0] == 'h' && "type"@.len() == 4 && "host"@.len() == 4);
    assert("t"@.len() == 1 && "server_t"@.len() == 8 && "rtc"@.len() == 3 && "version"@.len() == 7
        && "sdp"@.len() == 3 && "message"@.len() == 7);
}

/// What the replies hold: a pong its type, what the ping carried and the time; a welcome its type, the
/// PC's name, that RTC is there, the version and the time; an answer its type and the session text; a
/// rejection its type and the message. They hold nothing else.
pub proof fn what_the_replies_hold(
    t: Json,
    server_t: Json,
    host: Seq<char>,
    version: Seq<char>,
    s: Seq<char>,
)
    ensures
        pong(t, server_t) matches Json::Object(m) && {
            &&& m.dom() == set!["type"@, "t"@, "server_t"@]
            &&& m["type"@] == Json::Text("pong"@)
            &&& m["t"@] == t
            &&& m["server_t"@] == server_t
        },
        welcome(host, version, server_t) matches Json::Object(m) && {
            &&& m.dom() == set!["type"@, "host"@, "rtc"@, "version"@, "server_t"@]
            &&& m["type"@] == Json::Text("welcome"@)
            &&& m["host"@] == Json::Text(host)
            &&& m["rtc"@] == Json::Bool(true)
            &&& m["version"@] == Json::Text(version)
            &&& m["server_t"@] == server_t
        },
        answer(s) matches Json::Object(m) && {
            &&& m.dom() == set!["type"@, "sdp"@]
            &&& m["type"@] == Json::Text("answer"@)
            &&& m["sdp"@] == Json::Text(s)
        },
        rejection(s) matches Json::Object(m) && {
            &&& m.dom() == set!["type"@, "message"@]
            &&& m["type"@] == Json::Text("error"@)
            &&& m["message"@] == Json::Text(s)
        },
{
    lemma_reply_keys();
    if let Json::Object(m) = pong(t, server_t) {
        assert(m.dom() =~= set!["type"@, "t"@, "server_t"@]);
    }
    if let Json::Object(m) = welcome(host, version, server_t) {
        assert(m.dom() =~= set!["type"@, "host"@, "rtc"@, "version"@, "server_t"@]);
    }
    if let Json::Object(m) = answer(s) {
        assert(m.dom() =~= set!["type"@, "sdp"@]);
    }
    if let Json::Object(m) = rejection(s) {
        assert(m.dom() =~= set!["type"@, "message"@]);
    }
}

/// Which message gets which reply, with what is in it.
pub proof fn who_is_replied_to(
    c: ControlView,
    host: Seq<char>,
    version: Seq<char>,
    server_t: Json,
    s: Seq<char>,
)
    ensures
        c matches ControlView::Ping { t } ==> reply_to(c, host, version, server_t) == Some(
            pong(t, server_t),
        ),
        c is Hello ==> reply_to(c, host, version, server_t) == Some(
            welcome(host, version, server_t),
        ),
        c is Offer || c is Log || c is Unknown ==> reply_to(c, host, version, server_t) is None,
        outcome_of(Ok(s)) == answer(s),
        outcome_of(Err(s)) == rejection(s),
{
}

/// The fields that are logged, in their order.
pub proof fn the_logged_fields()
    ensures
        log_fields().len() == 15,
        log_fields().take(5) == seq!["ev"@, "vis"@, "standalone"@, "ctx"@, "running"@],
        log_fields().subrange(5, 10) == seq!["path"@, "state"@, "ice"@, "code"@, "reason"@],
        log_fields().skip(10) == seq!["enabled"@, "ready"@, "muted"@, "ua"@, "t"@],
{
    assert(log_fields().take(5) =~= seq!["ev"@, "vis"@, "standalone"@, "ctx"@, "running"@]);
    assert(log_fields().subrange(5, 10) =~= seq!["path"@, "state"@, "ice"@, "code"@, "reason"@]);
    assert(log_fields().skip(10) =~= seq!["enabled"@, "ready"@, "muted"@, "ua"@, "t"@]);
}

/// What is logged of a member: of a text its first 200 characters, of a number how it is written, of a
/// boolean its name, all of them escaped; nothing of anything else, or if there is none.
pub proof fn what_is_logged_of_a_member(m: Map<Seq<char>, Json>, key: Seq<char>, s: Seq<char>)
    ensures
        ({
            let logged = shown(Json::Object(m), key);
            &&& !m.contains_key(key) ==> logged is None
            &&& m.contains_key(key) && m[key] == Json::Text(s) && s.len() <= 200 ==> logged == Some(
                text::escaped(s),
            )
            &&& m.contains_key(key) && m[key] == Json::Text(s) && s.len() > 200 ==> logged == Some(
                text::escaped(s.take(200)),
            )
            &&& m.contains_key(key) && m[key] is Number ==> logged == Some(
                text::escaped(m[key]->text),
            )
            &&& m.contains_key(key) && m[key] == Json::Bool(true) ==> logged == Some(
                text::escaped("true"@),
            )
            &&& m.contains_key(key) && m[key] == Json::Bool(false) ==> logged == Some(
                text::escaped("false"@),
            )
            &&& m.contains_key(key) && (m[key] is Null || m[key] is Array || m[key] is Object)
                ==> logged is None
        }),
{
}

/// How fields are joined: each with its name, an equals sign and its text, with a blank between two;
/// a field without a text leaves no trace.
pub proof fn fields_are_joined_in_order(
    keys: Seq<Seq<char>>,
    texts: Seq<Option<Seq<char>>>,
    key: Seq<char>,
    t: Seq<char>,
)
    requires
        keys.len() == texts.len(),
    ensures
        ({
            let before = joined(keys, texts);
            &&& joined(keys.push(key), texts.push(None)) == before
            &&& before.len() == 0 ==> joined(keys.push(key), texts.push(Some(t))) == key + seq!['=']
                + t
            &&& before.len() > 0 ==> joined(keys.push(key), texts.push(Some(t))) == before
                + seq![' '] + key + seq!['='] + t
        }),
        joined(Seq::empty(), Seq::empty()).len() == 0,
{
    reveal_strlit(" ");
    reveal_strlit("=");
    assert(" "@ =~= seq![' ']);
    assert("="@ =~= seq!['=']);
    let before = joined(keys, texts);
    assert(keys.push(key).drop_last() =~= keys);
    assert(texts.push(None).drop_last() =~= texts);
    assert(texts.push(Some(t)).drop_last() =~= texts);
    if before.len() == 0 {
        assert(joined(keys.push(key), texts.push(Some(t))) =~= key + seq!['='] + t);
    }
}

/// The line of a message holds the fields in the fixed order, each as what is logged of it.
pub proof fn the_line_holds_the_fields(j: Json, i: int)
    requires
        0 <= i < 15,
    ensures
        shown_fields(j).len() == 15,
        shown_fields(j)[i] == shown(j, log_fields()[i]),
{
}

} // verus!
