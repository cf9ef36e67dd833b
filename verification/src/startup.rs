//! Decisions at startup: which output device plays, which address the tray opens, which origins are
//! allowed, and whether the watchdog may start at all.

use vstd::prelude::*;
use crate::access::{TailscaleSelf, TailscaleView};
use crate::access;
use crate::number;
use crate::text;

verus! {

/// The stop marker is honoured if it was written up to this many seconds before the system start
/// (the uptime is rounded).
pub const STOP_TOLERANCE_SECS: u64 = 5;

// ---------------------------------------------------------------------------------------------
// Output device
// ---------------------------------------------------------------------------------------------

/// Which output device plays.
#[derive(Debug, Clone, Copy, PartialEq, Eq, Structural)]
pub enum DeviceChoice {
    /// The system's default output.
    Default,
    /// The device at this place of the listing.
    Listed(usize),
    /// No device fits.
    Missing,
}

/// Whether `r` is the place of the first of `names` that holds `filter`.
pub open spec fn first_with(names: Seq<Seq<char>>, filter: Seq<char>, r: Option<usize>) -> bool {
    match r {
        Some(i) => {
            &&& i < names.len()
            &&& text::occurs(names[i as int], filter)
            &&& forall|k: int| 0 <= k < i ==> !#[trigger] text::occurs(names[k], filter)
        },
        None => forall|k: int| 0 <= k < names.len() ==> !#[trigger] text::occurs(names[k], filter),
    }
}

/// The place of the first of `names` that holds `filter`.
pub fn first_match(names: &[String], filter: &str) -> (r: Option<usize>)
    ensures
        first_with(names@.map_values(|s: String| s@), filter@, r),
{
    let needle = text::chars_of(filter);
    let mut i: usize = 0;
    while i < names.len()
        invariant
            i <= names.len(),
            needle@ == filter@,
            forall|k: int| 0 <= k < i ==> !#[trigger] text::occurs(names@[k]@, filter@),
        decreases names.len() - i,
    {
        if text::contains_text(&text::chars_of(&names[i]), &needle) {
            return Some(i);
        }
        i = i + 1;
    }
    None
}

/// Picks the output device: "default" (in any letter case) is the system's default output, anything
/// else the first listed device whose name holds the filter, whatever the letters' case.
pub fn pick_device(filter: &str, names: &[String]) -> (r: DeviceChoice)
    ensures
        r is Default <==> text::lower(filter@) == "default"@,
        !(r is Default) ==> first_with(
            names@.map_values(|s: String| text::lowercased(s@)),
            text::lowercased(filter@),
            match r {
                DeviceChoice::Listed(i) => Some(i),
                _ => None,
            },
        ),
{
    if text::same(&text::lower_string(filter), "default") {
        return DeviceChoice::Default;
    }
    let mut lowered: Vec<String> = Vec::new();
    let mut i: usize = 0;
    while i < names.len()
        invariant
            i <= names.len(),
            i == lowered@.len(),
            forall|k: int| 0 <= k < i ==> #[trigger] lowered@[k]@ == text::lowercased(names@[k]@),
        decreases names.len() - i,
    {
        lowered.push(text::to_lowercase(&names[i]));
        i = i + 1;
    }
    assert(lowered@.map_values(|s: String| s@) =~= names@.map_values(
        |s: String| text::lowercased(s@),
    ));
    match first_match(&lowered, &text::to_lowercase(filter)) {
        Some(i) => DeviceChoice::Listed(i),
        None => DeviceChoice::Missing,
    }
}

// ---------------------------------------------------------------------------------------------
// Addresses
// ---------------------------------------------------------------------------------------------

/// The address that the tray menu opens: the one that was set, else the page under the Tailscale
/// name, else the page on this PC.
pub open spec fn page_address(
    set: Option<Seq<char>>,
    identity: Option<TailscaleView>,
    port: u16,
) -> Seq<char> {
    match set {
        Some(u) => u,
        None => match identity {
            Some(t) => "https://"@ + t.host + "/"@,
            None => "http://127.0.0.1:"@ + number::decimal(port as nat) + "/"@,
        },
    }
}

/// The text of an optional string.
pub open spec fn text_view(s: Option<String>) -> Option<Seq<char>> {
    match s {
        Some(x) => Some(x@),
        None => None,
    }
}

/// The address that the tray menu opens.
pub fn ui_url(set: &Option<String>, identity: &Option<TailscaleSelf>, port: u16) -> (r: String)
    ensures
        r@ == page_address(text_view(*set), access::identity_view(*identity), port),
{
    if let Some(u) = set {
        return u.as_str().to_owned();
    }
    match identity {
        Some(t) => {
            let mut s = "https://".to_owned();
            s.append(&t.host);
            s.append("/");
            s
        },
        None => {
            let mut s = "http://127.0.0.1:".to_owned();
            number::push_decimal(&mut s, port as u64);
            s.append("/");
            s
        },
    }
}

/// The origins allowed besides loopback and the Tailscale name: the ones that were given, and the
/// page's own address if it was set.
pub fn allowed_origins(given: &[String], page: &Option<String>) -> (r: Vec<String>)
    ensures
        r@.map_values(|s: String| s@) == given@.map_values(|s: String| s@) + (match page {
            Some(p) => seq![p@],
            None => seq![],
        }),
{
    let mut r: Vec<String> = Vec::new();
    let mut i: usize = 0;
    while i < given.len()
        invariant
            i <= given.len(),
            i == r@.len(),
            forall|k: int| 0 <= k < i ==> #[trigger] r@[k]@ == given@[k]@,
        decreases given.len() - i,
    {
        r.push(given[i].as_str().to_owned());
        i = i + 1;
    }
    if let Some(p) = page {
        r.push(p.as_str().to_owned());
    }
    assert(r@.map_values(|s: String| s@) =~= given@.map_values(|s: String| s@) + (match page {
        Some(p) => seq![p@],
        None => seq![],
    }));
    r
}

// ---------------------------------------------------------------------------------------------
// Stop marker
// ---------------------------------------------------------------------------------------------

/// The time of the system start, in seconds since the epoch.
pub open spec fn booted_at(now_secs: u64, uptime_ms: u64) -> int {
    if now_secs >= uptime_ms / 1000 {
        now_secs - uptime_ms / 1000
    } else {
        0
    }
}

/// The time of the system start, in seconds since the epoch: zero if the uptime is longer than that.
pub fn boot_time(now_secs: u64, uptime_ms: u64) -> (r: u64)
    ensures
        r == (if now_secs >= uptime_ms / 1000 {
            now_secs - uptime_ms / 1000
        } else {
            0
        }),
        r == booted_at(now_secs, uptime_ms),
{
    let up: u64 = uptime_ms / 1000;
    if now_secs >= up {
        now_secs - up
    } else {
        0
    }
}

/// Whether the user quit since the system start: the marker holds a time not before it.
pub open spec fn stopped(marker: Seq<char>, boot_secs: u64) -> bool {
    match number::parsed(text::trimmed(marker), u64::MAX as nat) {
        Some(t) => t + STOP_TOLERANCE_SECS >= boot_secs,
        None => false,
    }
}

/// Whether the user quit from the tray since the system start; `marker` is the content of the stop
/// marker, if there is one.
pub fn stopped_by_user(marker: &Option<String>, boot_secs: u64) -> (r: bool)
    ensures
        r == (match *marker {
            Some(m) => stopped(m@, boot_secs),
            None => false,
        }),
{
    match marker {
        Some(m) => match number::parse_u64(&text::trim(&text::chars_of(m))) {
            Some(t) => t >= boot_secs || boot_secs - t <= STOP_TOLERANCE_SECS,
            None => false,
        },
        None => false,
    }
}

/// What is written into the stop marker when the user quits at `now_secs`.
pub fn stop_marker(now_secs: u64) -> (r: String)
    ensures
        r@ == number::decimal(now_secs as nat),
{
    number::to_decimal(now_secs)
}

/// After the user quit, the watchdog leaves the program stopped until the system starts anew: the
/// marker counts for every system start up to a few seconds after it was written, and for none after
/// that.
pub proof fn stop_lasts_until_the_next_start(quit_secs: u64, boot_secs: u64)
    ensures
        stopped(number::decimal(quit_secs as nat), boot_secs) <==> boot_secs <= quit_secs
            + STOP_TOLERANCE_SECS,
{
    let d = number::decimal(quit_secs as nat);
    number::lemma_decimal(quit_secs as nat);
    number::decimal_reads_back(quit_secs as nat, u64::MAX as nat);
    lemma_digits_are_no_space(d);
}

proof fn lemma_digits_are_no_space(d: Seq<char>)
    requires
        number::all_digits(d),
        d.len() > 0,
    ensures
        text::trimmed(d) == d,
{
    assert(number::is_digit(d[0]));
    assert(number::is_digit(d[d.len() - 1]));
}

/// The device that is picked is the first listed one that fits: no earlier one does, and none is picked
/// only if none fits.
pub proof fn the_first_fitting_device_is_picked(
    names: Seq<Seq<char>>,
    filter: Seq<char>,
    r: Option<usize>,
    i: usize,
)
    requires
        first_with(names, filter, r),
        i < names.len(),
        text::occurs(names[i as int], filter),
    ensures
        r is Some,
        r->0 <= i,
        (forall|k: int| 0 <= k < i ==> !(#[trigger] text::occurs(names[k], filter))) ==> r == Some(
            i,
        ),
{
}

/// The address that is set is the page's address; else it is the one under the Tailscale name, by https;
/// else the one on this PC, by http and with the port.
pub proof fn where_the_page_is(u: Seq<char>, t: TailscaleView, port: u16)
    ensures
        page_address(Some(u), Some(t), port) == u,
        page_address(Some(u), None, port) == u,
        page_address(None, Some(t), port) == "https://"@ + t.host + "/"@,
        page_address(None, None, port) == "http://127.0.0.1:"@ + number::decimal(port as nat)
            + "/"@,
{
}

/// A marker counts exactly if it holds a time, with or without blanks around it, that lies at most five
/// seconds before the system start; one that holds no time never counts.
pub proof fn which_markers_count(marker: Seq<char>, boot_secs: u64)
    ensures
        number::parsed(text::trimmed(marker), u64::MAX as nat) matches Some(t) ==> (stopped(
            marker,
            boot_secs,
        ) <==> t + 5 >= boot_secs),
        number::parsed(text::trimmed(marker), u64::MAX as nat) is None ==> !stopped(
            marker,
            boot_secs,
        ),
{
}

/// The system start is the uptime, in whole seconds, before now, and never before the epoch.
pub proof fn the_uptime_leads_back_to_the_start(now_secs: u64, uptime_ms: u64)
    ensures
        0 <= booted_at(now_secs, uptime_ms) <= now_secs,
        1000 * now_secs >= uptime_ms ==> 1000 * (now_secs - booted_at(now_secs, uptime_ms))
            <= uptime_ms && uptime_ms < 1000 * (now_secs - booted_at(now_secs, uptime_ms)) + 1000,
        1000 * now_secs + 1000 <= uptime_ms ==> booted_at(now_secs, uptime_ms) == 0,
{
}

} // verus!
