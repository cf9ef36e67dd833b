//! What the counters say over time: the tray status once per second, the log line every five.

use vstd::prelude::*;
use crate::i18n;
use crate::i18n::{Device, Lang, Texts};
use crate::json;
use crate::json::Json;
use crate::limit;
use crate::number;
use crate::tray::{TrayState, TrayStateView};
use crate::webrtc_rx::RtcStats;
use serde_json::Value;

verus! {

/// Trouble is shown for this long after it was last seen: one minute.
pub const TROUBLE_SHOWN: u64 = 60_000_000_000;

// ---------------------------------------------------------------------------------------------
// Trouble
// ---------------------------------------------------------------------------------------------

/// Watches the underruns and lost packets for the yellow tray icon.
#[derive(Debug)]
pub struct TroubleWatch {
    last_counts: Option<(u64, u64)>,
    last_trouble: Option<u64>,
}

/// What the watch has seen.
#[verifier::ext_equal]
pub struct TroubleView {
    /// The counters at the last look.
    pub last_counts: Option<(u64, u64)>,
    /// When they last changed while somebody was connected.
    pub last_trouble: Option<u64>,
}

impl View for TroubleWatch {
    type V = TroubleView;

    closed spec fn view(&self) -> TroubleView {
        TroubleView { last_counts: self.last_counts, last_trouble: self.last_trouble }
    }
}

impl TroubleView {
    /// The watch after a look.
    pub open spec fn looked(self, underruns: u64, lost: u64, clients: u32, now: u64) -> TroubleView {
        TroubleView {
            last_counts: Some((underruns, lost)),
            last_trouble: if self.last_counts is Some && self.last_counts->0 != (underruns, lost)
                && clients > 0 {
                Some(now)
            } else {
                self.last_trouble
            },
        }
    }

    /// Whether trouble was seen within the last minute.
    pub open spec fn trouble(self, now: u64) -> bool {
        self.last_trouble is Some && limit::elapsed(self.last_trouble->0, now) < TROUBLE_SHOWN
    }
}

impl TroubleWatch {
    /// Nothing was seen yet.
    pub fn new() -> (r: Self)
        ensures
            r@ == (TroubleView { last_counts: None, last_trouble: None }),
    {
        TroubleWatch { last_counts: None, last_trouble: None }
    }

    /// Looks at the counters. Returns whether there was trouble within the last minute.
    pub fn look(&mut self, underruns: u64, lost: u64, clients: u32, now: u64) -> (r: bool)
        ensures
            final(self)@ == old(self)@.looked(underruns, lost, clients, now),
            r == final(self)@.trouble(now),
    {
        if let Some((u, l)) = self.last_counts {
            if (u != underruns || l != lost) && clients > 0 {
                self.last_trouble = Some(now);
            }
        }
        self.last_counts = Some((underruns, lost));
        match self.last_trouble {
            Some(t) => limit::time_since(t, now) < TROUBLE_SHOWN,
            None => false,
        }
    }
}

/// New trouble is shown at once, and for a minute as long as nothing new happens; then no longer.
pub proof fn trouble_is_shown_for_a_minute(
    v: TroubleView,
    underruns: u64,
    lost: u64,
    clients: u32,
    now: u64,
    later: u64,
)
    requires
        v.last_counts is Some,
        v.last_counts->0 != (underruns, lost),
        clients > 0,
        later >= now,
    ensures
        v.looked(underruns, lost, clients, now).trouble(now),
        v.looked(underruns, lost, clients, now).looked(underruns, lost, clients, later).trouble(
            later,
        ) <==> later - now < TROUBLE_SHOWN,
{
}

/// Counters that change while nobody is connected are no trouble, and neither is the first look.
pub proof fn idle_changes_are_no_trouble(
    v: TroubleView,
    underruns: u64,
    lost: u64,
    clients: u32,
    now: u64,
)
    requires
        clients == 0 || v.last_counts is None,
    ensures
        v.looked(underruns, lost, clients, now).last_trouble == v.last_trouble,
{
}

// ---------------------------------------------------------------------------------------------
// Log
// ---------------------------------------------------------------------------------------------

/// The counters that the log line is about.
#[derive(Debug, Clone, Copy, PartialEq, Eq, Structural)]
pub struct Counts {
    pub pcm_frames: u64,
    pub rtc_packets: u64,
    pub underruns: u64,
    pub dropped: u64,
}

/// Decides whether the counters are logged.
#[derive(Debug)]
pub struct StatsWatch {
    last: Option<Counts>,
}

impl View for StatsWatch {
    type V = Option<Counts>;

    closed spec fn view(&self) -> Option<Counts> {
        self.last
    }
}

/// Whether counters are logged, where `last` were the ones before.
pub open spec fn worth_logging(last: Option<Counts>, counts: Counts, clients: u32) -> bool {
    clients > 0 || (last is Some && last->0 != counts)
}

impl StatsWatch {
    /// Nothing was seen yet.
    pub fn new() -> (r: Self)
        ensures
            r@ is None,
    {
        StatsWatch { last: None }
    }

    /// Whether the counters are logged: while a client is connected or something changed, so that
    /// the log does not fill up while idle.
    pub fn look(&mut self, counts: Counts, clients: u32) -> (r: bool)
        ensures
            final(self)@ == Some(counts),
            r == (clients > 0 || (old(self)@ is Some && old(self)@->0 != counts)),
            r == worth_logging(old(self)@, counts, clients),
    {
        let changed = match self.last {
            Some(l) => l != counts,
            None => false,
        };
        self.last = Some(counts);
        clients > 0 || changed
    }
}

// ---------------------------------------------------------------------------------------------
// Tray status
// ---------------------------------------------------------------------------------------------

/// The name of the audio path.
pub open spec fn path_name(rtc_connected: bool) -> Seq<char> {
    if rtc_connected {
        "WebRTC/Opus"@
    } else {
        "PCM"@
    }
}

/// The name of the audio path.
pub fn path_label(rtc_connected: bool) -> (r: &'static str)
    ensures
        r@ == path_name(rtc_connected),
{
    if rtc_connected {
        "WebRTC/Opus"
    } else {
        "PCM"
    }
}

/// The state that the tray shows.
pub open spec fn state_of(clients: u32, device: Device, rtc_connected: bool, trouble: bool) -> TrayStateView {
    if clients == 0 {
        TrayStateView::Idle
    } else {
        TrayStateView::Connected { device, path: path_name(rtc_connected), clients, trouble }
    }
}

/// The state that the tray shows.
pub fn tray_state(clients: u32, device: Device, rtc_connected: bool, trouble: bool) -> (r: TrayState)
    ensures
        r@ == state_of(clients, device, rtc_connected, trouble),
{
    if clients == 0 {
        TrayState::Idle
    } else {
        TrayState::Connected {
            device,
            path: path_label(rtc_connected).to_owned(),
            clients,
            trouble,
        }
    }
}

/// The numbers of a tooltip, written out: buffer and target in milliseconds without decimals, the
/// loss in percent with one.
#[derive(Debug, Clone, Copy)]
pub struct Shown<'a> {
    pub buffered: &'a str,
    pub target: &'a str,
    pub loss: &'a str,
    pub underruns: u64,
}

/// The tooltip of a state.
pub open spec fn tooltip_of(
    lang: Lang,
    s: TrayStateView,
    output: Seq<char>,
    switching: bool,
    buffered: Seq<char>,
    target: Seq<char>,
    loss: Seq<char>,
    underruns: u64,
) -> Seq<char> {
    match s {
        TrayStateView::Idle => i18n::idle_tooltip(lang, output, switching),
        TrayStateView::Connected { path, .. } => i18n::connected_tooltip(
            lang,
            path,
            buffered,
            target,
            loss,
            underruns,
        ),
    }
}

/// The tooltip of a state: the output device and the switching while waiting, else the audio path and
/// the numbers.
pub fn tooltip(texts: &Texts, state: &TrayState, output: &str, switching: bool, n: &Shown<'_>) -> (r:
    String)
    ensures
        r@ == tooltip_of(
            texts.lang,
            state@,
            output@,
            switching,
            n.buffered@,
            n.target@,
            n.loss@,
            n.underruns,
        ),
{
    match state {
        TrayState::Idle => texts.tooltip_idle(output, switching),
        TrayState::Connected { path, .. } => texts.tooltip_connected(
            path,
            n.buffered,
            n.target,
            n.loss,
            n.underruns,
        ),
    }
}

// ---------------------------------------------------------------------------------------------
// Status report
// ---------------------------------------------------------------------------------------------

/// The program's own part of the status report.
#[derive(Debug)]
pub struct Program<'a> {
    pub version: &'a str,
    pub pid: u32,
    pub device: &'a str,
    pub clients: u32,
    pub mic_switched: bool,
    pub switching_enabled: bool,
    pub uptime_s: u64,
}

/// The buffer's part of the status report; the three fractions are JSON numbers already.
#[derive(Debug)]
pub struct Buffer {
    pub frames_received: u64,
    pub samples_received: u64,
    pub underruns: u64,
    pub dropped_samples: u64,
    pub buffered_ms: Value,
    pub target_ms: Value,
    pub ratio: Value,
    pub input_rate: u32,
    pub output_rate: u32,
}

/// A whole number in JSON.
pub open spec fn whole(n: u64) -> Json {
    Json::Number { text: number::decimal(n as nat), natural: Some(n) }
}

/// The counters of the RTC path in the status report.
pub open spec fn rtc_report(r: RtcStats) -> Json {
    Json::Object(
        json::no_keys().insert("connected"@, Json::Bool(r.connected)).insert(
            "packets"@,
            whole(r.packets),
        ).insert("lost"@, whole(r.lost)).insert("fec_recovered"@, whole(r.fec_recovered)).insert(
            "plc_frames"@,
            whole(r.plc_frames),
        ).insert("decode_errors"@, whole(r.decode_errors)),
    )
}

/// The status report.
pub open spec fn report(p: Program<'_>, b: Buffer, r: RtcStats) -> Json {
    Json::Object(
        json::no_keys().insert("version"@, Json::Text(p.version@)).insert(
            "pid"@,
            whole(p.pid as u64),
        ).insert("device"@, Json::Text(p.device@)).insert("clients"@, whole(p.clients as u64)).insert(
            "mic_switched"@,
            Json::Bool(p.mic_switched),
        ).insert("switching_enabled"@, Json::Bool(p.switching_enabled)).insert(
            "uptime_s"@,
            whole(p.uptime_s),
        ).insert("frames_received"@, whole(b.frames_received)).insert(
            "samples_received"@,
            whole(b.samples_received),
        ).insert("underruns"@, whole(b.underruns)).insert(
            "dropped_samples"@,
            whole(b.dropped_samples),
        ).insert("buffered_ms"@, json::json_of(b.buffered_ms)).insert(
            "target_ms"@,
            json::json_of(b.target_ms),
        ).insert("ratio"@, json::json_of(b.ratio)).insert(
            "input_rate"@,
            whole(b.input_rate as u64),
        ).insert("output_rate"@, whole(b.output_rate as u64)).insert("rtc"@, rtc_report(r)),
    )
}

/// The counters of the RTC path in the status report.
fn write_rtc(r: &RtcStats) -> (v: Value)
    ensures
        json::json_of(v) == rtc_report(*r),
{
    let mut m = json::no_members();
    json::put(&mut m, "connected", json::boolean(r.connected));
    json::put(&mut m, "packets", json::natural(r.packets));
    json::put(&mut m, "lost", json::natural(r.lost));
    json::put(&mut m, "fec_recovered", json::natural(r.fec_recovered));
    json::put(&mut m, "plc_frames", json::natural(r.plc_frames));
    json::put(&mut m, "decode_errors", json::natural(r.decode_errors));
    json::object(m)
}

/// The status report for scripts and other tools.
pub fn stats(p: Program<'_>, b: Buffer, r: RtcStats) -> (v: Value)
    ensures
        json::json_of(v) == report(p, b, r),
{
    let mut m = json::no_members();
    json::put(&mut m, "version", json::string(p.version));
    json::put(&mut m, "pid", json::natural(p.pid as u64));
    json::put(&mut m, "device", json::string(p.device));
    json::put(&mut m, "clients", json::natural(p.clients as u64));
    json::put(&mut m, "mic_switched", json::boolean(p.mic_switched));
    json::put(&mut m, "switching_enabled", json::boolean(p.switching_enabled));
    json::put(&mut m, "uptime_s", json::natural(p.uptime_s));
    json::put(&mut m, "frames_received", json::natural(b.frames_received));
    json::put(&mut m, "samples_received", json::natural(b.samples_received));
    json::put(&mut m, "underruns", json::natural(b.underruns));
    json::put(&mut m, "dropped_samples", json::natural(b.dropped_samples));
    json::put(&mut m, "buffered_ms", b.buffered_ms);
    json::put(&mut m, "target_ms", b.target_ms);
    json::put(&mut m, "ratio", b.ratio);
    json::put(&mut m, "input_rate", json::natural(b.input_rate as u64));
    json::put(&mut m, "output_rate", json::natural(b.output_rate as u64));
    json::put(&mut m, "rtc", write_rtc(&r));
    json::object(m)
}

/// While idle the log stays quiet: without a client, counters are logged only if one of them has
/// changed since the last look, and never at the first; with a client they always are.
pub proof fn idle_counters_are_not_logged(a: Counts, b: Counts, clients: u32)
    ensures
        clients > 0 ==> worth_logging(Some(a), b, clients) && worth_logging(None, b, clients),
        !worth_logging(None, b, 0),
        !worth_logging(Some(a), a, 0),
        a.pcm_frames != b.pcm_frames || a.rtc_packets != b.rtc_packets || a.underruns != b.underruns
            || a.dropped != b.dropped ==> worth_logging(Some(a), b, 0),
{
}

/// Trouble is a change of the underruns or the lost packets while somebody is connected; it is shown for
/// less than sixty seconds. Every look remembers the counters.
pub proof fn what_counts_as_trouble(
    v: TroubleView,
    underruns: u64,
    lost: u64,
    clients: u32,
    now: u64,
    at: u64,
)
    requires
        at <= now,
    ensures
        v.looked(underruns, lost, clients, now).last_counts == Some((underruns, lost)),
        v.last_counts matches Some((u, l)) ==> (u != underruns || l != lost) && clients > 0
            ==> v.looked(underruns, lost, clients, now).last_trouble == Some(now),
        v.last_counts == Some((underruns, lost)) ==> v.looked(
            underruns,
            lost,
            clients,
            now,
        ).last_trouble == v.last_trouble,
        v.last_trouble == Some(at) ==> (v.trouble(now) <==> now - at < 60_000_000_000),
        v.last_trouble is None ==> !v.trouble(now),
{
}

/// What the tray shows: waiting while there is no client, else the device, the path, the number of
/// clients and whether there is trouble.
pub proof fn what_the_tray_shows(clients: u32, device: Device, rtc_connected: bool, trouble: bool)
    ensures
        state_of(0, device, rtc_connected, trouble) is Idle,
        clients > 0 ==> state_of(clients, device, rtc_connected, trouble) == (
        TrayStateView::Connected {
            device,
            path: if rtc_connected {
                "WebRTC/Opus"@
            } else {
                "PCM"@
            },
            clients,
            trouble,
        }),
{
}

/// Which tooltip goes with which state: the one with the output device while waiting, else the one with
/// the path and the numbers.
pub proof fn which_tooltip_is_shown(
    lang: Lang,
    device: Device,
    path: Seq<char>,
    clients: u32,
    trouble: bool,
    output: Seq<char>,
    switching: bool,
    buffered: Seq<char>,
    target: Seq<char>,
    loss: Seq<char>,
    underruns: u64,
)
    ensures
        tooltip_of(
            lang,
            TrayStateView::Idle,
            output,
            switching,
            buffered,
            target,
            loss,
            underruns,
        ) == i18n::idle_tooltip(lang, output, switching),
        tooltip_of(
            lang,
            TrayStateView::Connected { device, path, clients, trouble },
            output,
            switching,
            buffered,
            target,
            loss,
            underruns,
        ) == i18n::connected_tooltip(lang, path, buffered, target, loss, underruns),
{
}

/// The keys of the counters of the RTC path differ.
proof fn lemma_rtc_keys()
    ensures
        "connected"@ != "packets"@,
        "connected"@ != "lost"@,
        "connected"@ != "fec_recovered"@,
        "connected"@ != "plc_frames"@,
        "connected"@ != "decode_errors"@,
        "packets"@ != "lost"@,
        "packets"@ != "fec_recovered"@,
        "packets"@ != "plc_frames"@,
        "packets"@ != "decode_errors"@,
        "lost"@ != "fec_recovered"@,
        "lost"@ != "plc_frames"@,
        "lost"@ != "decode_errors"@,
        "fec_recovered"@ != "plc_frames"@,
        "fec_recovered"@ != "decode_errors"@,
        "plc_frames"@ != "decode_errors"@,
{
    reveal_strlit("connected");
    reveal_strlit("packets");
    reveal_strlit("lost");
    reveal_strlit("fec_recovered");
    reveal_strlit("plc_frames");
    reveal_strlit("decode_errors");
    assert("connected"@.len() == 9 && "packets"@.len() == 7 && "lost"@.len() == 4
        && "plc_frames"@.len() == 10);
    assert("fec_recovered"@.len() == 13 && "decode_errors"@.len() == 13);
    assert("fec_recovered"@[0] == 'f' && "decode_errors"@[0] == 'd');
}

/// The report on the RTC path shows each counter under its own name.
pub proof fn the_rtc_report_shows_each_counter(r: RtcStats)
    ensures
        rtc_report(r) matches Json::Object(m) && {
            &&& m["connected"@] == Json::Bool(r.connected)
            &&& m["packets"@] == whole(r.packets)
            &&& m["lost"@] == whole(r.lost)
            &&& m["fec_recovered"@] == whole(r.fec_recovered)
            &&& m["plc_frames"@] == whole(r.plc_frames)
            &&& m["decode_errors"@] == whole(r.decode_errors)
            &&& m.dom() == set![
                "connected"@,
                "packets"@,
                "lost"@,
                "fec_recovered"@,
                "plc_frames"@,
                "decode_errors"@,
            ]
        },
        whole(r.lost) == (Json::Number {
            text: number::decimal(r.lost as nat),
            natural: Some(r.lost),
        }),
{
    lemma_rtc_keys();
    if let Json::Object(m) = rtc_report(r) {
        assert(m.dom() =~= set![
            "connected"@,
            "packets"@,
            "lost"@,
            "fec_recovered"@,
            "plc_frames"@,
            "decode_errors"@,
        ]);
    }
}

/// The status report shows each number, text and flag under its own name, and the RTC path's counters
/// under "rtc".
pub proof fn the_report_shows_everything(p: Program<'_>, b: Buffer, r: RtcStats)
    ensures
        report(p, b, r) matches Json::Object(m) && {
            &&& m["version"@] == Json::Text(p.version@)
            &&& m["pid"@] == whole(p.pid as u64)
            &&& m["device"@] == Json::Text(p.device@)
            &&& m["clients"@] == whole(p.clients as u64)
            &&& m["mic_switched"@] == Json::Bool(p.mic_switched)
            &&& m["switching_enabled"@] == Json::Bool(p.switching_enabled)
            &&& m["uptime_s"@] == whole(p.uptime_s)
            &&& m["frames_received"@] == whole(b.frames_received)
            &&& m["samples_received"@] == whole(b.samples_received)
            &&& m["underruns"@] == whole(b.underruns)
            &&& m["dropped_samples"@] == whole(b.dropped_samples)
            &&& m["buffered_ms"@] == json::json_of(b.buffered_ms)
            &&& m["target_ms"@] == json::json_of(b.target_ms)
            &&& m["ratio"@] == json::json_of(b.ratio)
            &&& m["input_rate"@] == whole(b.input_rate as u64)
            &&& m["output_rate"@] == whole(b.output_rate as u64)
            &&& m["rtc"@] == rtc_report(r)
        },
{
    reveal_strlit("version");
    reveal_strlit("pid");
    reveal_strlit("device");
    reveal_strlit("clients");
    reveal_strlit("mic_switched");
    reveal_strlit("switching_enabled");
    reveal_strlit("uptime_s");
    reveal_strlit("frames_received");
    reveal_strlit("samples_received");
    reveal_strlit("underruns");
    reveal_strlit("dropped_samples");
    reveal_strlit("buffered_ms");
    reveal_strlit("target_ms");
    reveal_strlit("ratio");
    reveal_strlit("input_rate");
    reveal_strlit("output_rate");
    reveal_strlit("rtc");
    assert("version"@.len() == 7 && "clients"@.len() == 7 && "version"@[0] == 'v' && "clients"@[0]
        == 'c');
    assert("pid"@.len() == 3 && "rtc"@.len() == 3 && "pid"@[0] == 'p' && "rtc"@[0] == 'r');
    assert("frames_received"@.len() == 15 && "dropped_samples"@.len() == 15
        && "frames_received"@[0] == 'f' && "dropped_samples"@[0] == 'd');
    assert("underruns"@.len() == 9 && "target_ms"@.len() == 9 && "underruns"@[0] == 'u'
        && "target_ms"@[0] == 't');
    assert("buffered_ms"@.len() == 11 && "output_rate"@.len() == 11 && "buffered_ms"@[0] == 'b'
        && "output_rate"@[0] == 'o');
    assert("device"@.len() == 6 && "mic_switched"@.len() == 12 && "switching_enabled"@.len() == 17
        && "uptime_s"@.len() == 8 && "samples_received"@.len() == 16 && "ratio"@.len() == 5
        && "input_rate"@.len() == 10);
}

} // verus!
