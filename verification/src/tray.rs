//! The tray icon: what it shows, when it changes, and what its menu does.
//!
//! Icon: grey dot = waiting, green dot = connected, yellow dot = connected, but trouble (loss or
//! underruns within the last minute).

use vstd::prelude::*;
use crate::i18n;
use crate::i18n::{Device, Lang, Texts};
use crate::pcm;
use crate::text;

verus! {

// ---------------------------------------------------------------------------------------------
// State
// ---------------------------------------------------------------------------------------------

/// What the tray shows.
#[derive(Debug, PartialEq)]
pub enum TrayState {
    Idle,
    Connected { device: Device, path: String, clients: u32, trouble: bool },
}

/// What the tray shows.
#[verifier::ext_equal]
pub enum TrayStateView {
    Idle,
    Connected { device: Device, path: Seq<char>, clients: u32, trouble: bool },
}

impl View for TrayState {
    type V = TrayStateView;

    open spec fn view(&self) -> TrayStateView {
        match *self {
            TrayState::Idle => TrayStateView::Idle,
            TrayState::Connected { device, path, clients, trouble } => TrayStateView::Connected {
                device,
                path: path@,
                clients,
                trouble,
            },
        }
    }
}

impl Clone for TrayState {
    fn clone(&self) -> (r: Self)
        ensures
            r@ == self@,
    {
        match self {
            TrayState::Idle => TrayState::Idle,
            TrayState::Connected { device, path, clients, trouble } => TrayState::Connected {
                device: *device,
                path: path.as_str().to_owned(),
                clients: *clients,
                trouble: *trouble,
            },
        }
    }
}

/// What the user asks for in the tray menu.
#[derive(Debug, Clone, Copy, PartialEq, Eq, Structural)]
pub enum TrayCommand {
    /// Automatic default microphone switching on/off
    SetSwitching(bool),
    Quit,
}

/// What the tray thread is told.
#[derive(Debug)]
pub enum Update {
    /// A new state and its tooltip.
    State(TrayState, String),
    Quit,
}

/// What the tray thread is told.
#[verifier::ext_equal]
pub enum UpdateView {
    State(TrayStateView, Seq<char>),
    Quit,
}

impl View for Update {
    type V = UpdateView;

    open spec fn view(&self) -> UpdateView {
        match *self {
            Update::State(s, t) => UpdateView::State(s@, t@),
            Update::Quit => UpdateView::Quit,
        }
    }
}

/// Whether two states are the same.
fn same_state(a: &TrayState, b: &TrayState) -> (r: bool)
    ensures
        r == (a@ == b@),
{
    match a {
        TrayState::Idle => match b {
            TrayState::Idle => true,
            _ => false,
        },
        TrayState::Connected { device, path, clients, trouble } => match b {
            TrayState::Connected { device: d, path: p, clients: c, trouble: t } => {
                let same_path = text::same(path, p);
                *device == *d && same_path && *clients == *c && *trouble == *t
            },
            _ => false,
        },
    }
}

/// What was last sent to the tray thread.
#[derive(Debug)]
pub struct TrayHandle {
    last: Option<(TrayState, String)>,
}

impl View for TrayHandle {
    type V = Option<(TrayStateView, Seq<char>)>;

    closed spec fn view(&self) -> Option<(TrayStateView, Seq<char>)> {
        match self.last {
            Some(l) => Some((l.0@, l.1@)),
            None => None,
        }
    }
}

/// What the tray thread is told of a state and tooltip, where `last` were sent last.
pub open spec fn told(
    last: Option<(TrayStateView, Seq<char>)>,
    state: TrayStateView,
    tooltip: Seq<char>,
) -> Option<UpdateView> {
    if last == Some((state, tooltip)) {
        None
    } else {
        Some(UpdateView::State(state, tooltip))
    }
}

impl TrayHandle {
    /// Nothing was sent yet.
    pub fn new() -> (r: Self)
        ensures
            r@ is None,
    {
        TrayHandle { last: None }
    }

    /// Sets status and tooltip. The tray thread is only told on change.
    pub fn set_state(&mut self, state: TrayState, tooltip: String) -> (r: Option<Update>)
        ensures
            final(self)@ == Some((state@, tooltip@)),
            if old(self)@ == Some((state@, tooltip@)) {
                r is None
            } else {
                r is Some && r->0@ == UpdateView::State(state@, tooltip@)
            },
            match told(old(self)@, state@, tooltip@) {
                Some(u) => r is Some && r->0@ == u,
                None => r is None,
            },
    {
        if let Some(last) = &self.last {
            if same_state(&last.0, &state) && text::same(&last.1, &tooltip) {
                return None;
            }
        }
        self.last = Some((state.clone(), tooltip.as_str().to_owned()));
        Some(Update::State(state, tooltip))
    }

    /// Ends the tray thread.
    pub fn shutdown(&self) -> (r: Update)
        ensures
            r@ == UpdateView::Quit,
    {
        Update::Quit
    }
}

// ---------------------------------------------------------------------------------------------
// Look
// ---------------------------------------------------------------------------------------------

/// The colour of the dot.
#[derive(Debug, Clone, Copy, PartialEq, Eq, Structural)]
pub enum Dot {
    Grey,
    Green,
    Yellow,
}

impl Dot {
    /// Red, green and blue.
    pub fn rgb(self) -> (r: (u8, u8, u8))
        ensures
            r == (match self {
                Dot::Grey => (0x94u8, 0xa0u8, 0xadu8),
                Dot::Green => (0x34u8, 0xc4u8, 0xa4u8),
                Dot::Yellow => (0xe0u8, 0xa6u8, 0x3au8),
            }),
    {
        match self {
            Dot::Grey => (0x94, 0xa0, 0xad),
            Dot::Green => (0x34, 0xc4, 0xa4),
            Dot::Yellow => (0xe0, 0xa6, 0x3a),
        }
    }
}

/// The dot of a state.
pub open spec fn dot_of(s: TrayStateView) -> Dot {
    match s {
        TrayStateView::Idle => Dot::Grey,
        TrayStateView::Connected { trouble, .. } => if trouble {
            Dot::Yellow
        } else {
            Dot::Green
        },
    }
}

/// The first line of the menu in a state.
pub open spec fn status_line(lang: Lang, s: TrayStateView) -> Seq<char> {
    match s {
        TrayStateView::Idle => i18n::waiting_text(lang),
        TrayStateView::Connected { device, path, clients, .. } => i18n::status_text(
            lang,
            device,
            path,
            clients,
        ),
    }
}

impl TrayState {
    /// The dot of the icon.
    pub fn dot(&self) -> (r: Dot)
        ensures
            r == dot_of(self@),
    {
        match self {
            TrayState::Idle => Dot::Grey,
            TrayState::Connected { trouble, .. } => if *trouble {
                Dot::Yellow
            } else {
                Dot::Green
            },
        }
    }

    /// The first line of the menu.
    pub fn status(&self, texts: &Texts) -> (r: String)
        ensures
            r@ == status_line(texts.lang, self@),
    {
        match self {
            TrayState::Idle => texts.waiting().to_owned(),
            TrayState::Connected { device, path, clients, .. } => texts.status_connected(
                *device,
                path,
                *clients,
            ),
        }
    }
}

// ---------------------------------------------------------------------------------------------
// Menu
// ---------------------------------------------------------------------------------------------

/// An item of the menu.
#[derive(Debug, Clone, Copy, PartialEq, Eq, Structural)]
pub enum MenuEntry {
    Switching,
    OpenUi,
    OpenLogs,
    Quit,
    Other,
}

/// What a click does.
#[derive(Debug, Clone, Copy, PartialEq, Eq, Structural)]
pub enum TrayAction {
    Command(TrayCommand),
    OpenUi,
    OpenLogs,
    Nothing,
}

/// What a click on a menu item does; `checked` is the state of the switching item after the click.
pub fn on_menu(entry: MenuEntry, checked: bool) -> (r: TrayAction)
    ensures
        r == (match entry {
            MenuEntry::Switching => TrayAction::Command(TrayCommand::SetSwitching(checked)),
            MenuEntry::OpenUi => TrayAction::OpenUi,
            MenuEntry::OpenLogs => TrayAction::OpenLogs,
            MenuEntry::Quit => TrayAction::Command(TrayCommand::Quit),
            MenuEntry::Other => TrayAction::Nothing,
        }),
{
    match entry {
        MenuEntry::Switching => TrayAction::Command(TrayCommand::SetSwitching(checked)),
        MenuEntry::OpenUi => TrayAction::OpenUi,
        MenuEntry::OpenLogs => TrayAction::OpenLogs,
        MenuEntry::Quit => TrayAction::Command(TrayCommand::Quit),
        MenuEntry::Other => TrayAction::Nothing,
    }
}

/// What a click on the icon does: letting go of the left button opens the page.
pub fn on_click(left: bool, released: bool) -> (r: TrayAction)
    ensures
        r == (if left && released {
            TrayAction::OpenUi
        } else {
            TrayAction::Nothing
        }),
{
    if left && released {
        TrayAction::OpenUi
    } else {
        TrayAction::Nothing
    }
}

// ---------------------------------------------------------------------------------------------
// Wide text
// ---------------------------------------------------------------------------------------------

/// The UTF-16 units of a character.
pub open spec fn units(c: char) -> Seq<u16> {
    let u = c as u32;
    if u < 0x1_0000 {
        seq![u as u16]
    } else {
        seq![
            (0xd800 + (u - 0x1_0000) / 0x400) as u16,
            (0xdc00 + (u - 0x1_0000) % 0x400) as u16,
        ]
    }
}

/// The UTF-16 units of a text.
pub open spec fn utf16(s: Seq<char>) -> Seq<u16>
    decreases s.len(),
{
    if s.len() == 0 {
        seq![]
    } else {
        utf16(s.drop_last()) + units(s.last())
    }
}

/// A text in UTF-16 with a final zero, as the Windows API takes it.
pub fn to_wide(s: &str) -> (r: Vec<u16>)
    ensures
        r@ == utf16(s@).push(0),
{
    let v = text::chars_of(s);
    let mut r: Vec<u16> = Vec::new();
    let mut i: usize = 0;
    assert(v@.take(0) =~= seq![]);
    while i < v.len()
        invariant
            i <= v.len(),
            r@ == utf16(v@.take(i as int)),
        decreases v.len() - i,
    {
        let u: u32 = v[i] as u32;
        let ghost before = r@;
        proof {
            assert(v@.take(i + 1).drop_last() =~= v@.take(i as int));
        }
        if u < 0x1_0000 {
            r.push(u as u16);
        } else {
            let w: u32 = u - 0x1_0000;
            r.push((0xd800 + w / 0x400) as u16);
            r.push((0xdc00 + w % 0x400) as u16);
        }
        assert(r@ =~= before + units(v@[i as int]));
        i = i + 1;
    }
    assert(v@.take(i as int) =~= v@);
    r.push(0);
    r
}

/// The bytes of units, low byte first.
pub fn wide_bytes(units: &[u16]) -> (r: Vec<u8>)
    ensures
        bytes_of(units@, r@),
{
    let mut r: Vec<u8> = Vec::new();
    let mut i: usize = 0;
    while i < units.len()
        invariant
            i <= units.len(),
            r@.len() == 2 * i,
            forall|k: int|
                0 <= k < i ==> pcm::pair(r@[2 * k], r@[2 * k + 1]) == #[trigger] units@[k],
        decreases units.len() - i,
    {
        let u: u16 = units[i];
        r.push((u % 256) as u8);
        r.push((u / 256) as u8);
        i = i + 1;
    }
    r
}

proof fn lemma_units_not_zero(c: char)
    requires
        c != '\0',
    ensures
        forall|i: int| 0 <= i < units(c).len() ==> #[trigger] units(c)[i] != 0,
{
}

/// The final zero is the only one, unless the text itself holds the character zero: the Windows API
/// reads the whole text.
pub proof fn wide_text_ends_at_its_end(s: Seq<char>)
    requires
        forall|i: int| 0 <= i < s.len() ==> #[trigger] s[i] != '\0',
    ensures
        forall|i: int| 0 <= i < utf16(s).len() ==> #[trigger] utf16(s)[i] != 0,
    decreases s.len(),
{
    if s.len() > 0 {
        let init = s.drop_last();
        assert(forall|i: int| 0 <= i < init.len() ==> init[i] == s[i]);
        wide_text_ends_at_its_end(init);
        let last = s[s.len() - 1];
        assert(last != '\0');
        assert forall|i: int| 0 <= i < utf16(s).len() implies #[trigger] utf16(s)[i] != 0 by {
            let n = utf16(init).len() as int;
            if i < n {
                assert(utf16(s)[i] == utf16(init)[i]);
            } else {
                assert(utf16(s)[i] == units(last)[i - n]);
                lemma_units_not_zero(last);
            }
        }
    }
}

// ---------------------------------------------------------------------------------------------
// Notifications
// ---------------------------------------------------------------------------------------------

/// Own app id for toasts. Without a registered id they showed up as "Windows PowerShell".
pub const TOAST_APP_ID: &'static str = "GlassMic";

/// The name that the toasts show, as their sender and as their title.
pub const TOAST_NAME: &'static str = "Glass Mic";

/// What is registered for the toasts: a key below the current user and its text values, in the form
/// that the Windows registry takes.
#[derive(Debug)]
pub struct Registration {
    /// The key, with a final zero.
    pub subkey: Vec<u16>,
    /// The values: their name with a final zero, and the bytes of their text.
    pub values: Vec<(Vec<u16>, Vec<u8>)>,
}

/// Whether `bytes` are those of `units`, low byte first.
pub open spec fn bytes_of(units: Seq<u16>, bytes: Seq<u8>) -> bool {
    &&& bytes.len() == 2 * units.len()
    &&& forall|i: int|
        0 <= i < units.len() ==> pcm::pair(bytes[2 * i], bytes[2 * i + 1]) == #[trigger] units[i]
}

/// The registration of the app id under which the toasts are sent, with display name and icon, the way Windows expects it for
/// unpackaged apps without a Start menu shortcut.
pub fn toast_registration(icon: &str) -> (r: Registration)
    ensures
        r.subkey@ == utf16("Software\\Classes\\AppUserModelId\\"@ + TOAST_APP_ID@).push(0),
        r.values@.len() == 2,
        r.values@[0].0@ == utf16("DisplayName"@).push(0),
        bytes_of(utf16(TOAST_NAME@).push(0), r.values@[0].1@),
        r.values@[1].0@ == utf16("IconUri"@).push(0),
        bytes_of(utf16(icon@).push(0), r.values@[1].1@),
{
    let mut values: Vec<(Vec<u16>, Vec<u8>)> = Vec::new();
    values.push((to_wide("DisplayName"), wide_bytes(&to_wide(TOAST_NAME))));
    values.push((to_wide("IconUri"), wide_bytes(&to_wide(icon))));
    let mut subkey = "Software\\Classes\\AppUserModelId\\".to_owned();
    subkey.append(TOAST_APP_ID);
    Registration { subkey: to_wide(&subkey), values }
}

/// The tray thread is told of every change and of nothing else: the first state always, the same one
/// with the same tooltip never again, one that differs in either always.
pub proof fn the_tray_is_told_of_changes(
    a: TrayStateView,
    b: TrayStateView,
    s: Seq<char>,
    t: Seq<char>,
)
    ensures
        told(None, a, s) == Some(UpdateView::State(a, s)),
        told(Some((a, s)), a, s) is None,
        a != b || s != t ==> told(Some((a, s)), b, t) == Some(UpdateView::State(b, t)),
{
}

/// The dot is grey while waiting, yellow with trouble and green without.
pub proof fn the_dot_shows_the_state(device: Device, path: Seq<char>, clients: u32)
    ensures
        dot_of(TrayStateView::Idle) == Dot::Grey,
        dot_of(TrayStateView::Connected { device, path, clients, trouble: true }) == Dot::Yellow,
        dot_of(TrayStateView::Connected { device, path, clients, trouble: false }) == Dot::Green,
{
}

/// The first line of the menu says what the state is.
pub proof fn the_menu_says_the_state(
    lang: Lang,
    device: Device,
    path: Seq<char>,
    clients: u32,
    trouble: bool,
)
    ensures
        status_line(lang, TrayStateView::Idle) == i18n::waiting_text(lang),
        status_line(lang, TrayStateView::Connected { device, path, clients, trouble })
            == i18n::status_text(lang, device, path, clients),
{
}

/// A character up to U+FFFF is one unit with its number; any other is a pair of surrogates from which
/// its number can be computed back.
pub proof fn characters_are_read_back(c: char)
    ensures
        (c as u32) < 0x1_0000 ==> units(c).len() == 1 && units(c)[0] == c as u32,
        c as u32 >= 0x1_0000 ==> {
            &&& units(c).len() == 2
            &&& 0xd800 <= units(c)[0] < 0xdc00
            &&& 0xdc00 <= units(c)[1] < 0xe000
            &&& 0x1_0000 + 0x400 * (units(c)[0] - 0xd800) + (units(c)[1] - 0xdc00) == c as u32
        },
{
}

/// A text is written character by character, in order.
pub proof fn texts_are_written_in_order(s: Seq<char>, c: char)
    ensures
        utf16(Seq::empty()).len() == 0,
        utf16(s.push(c)) == utf16(s) + units(c),
{
    assert(s.push(c).drop_last() =~= s);
}

/// The bytes of units are theirs low byte first, two for each.
pub proof fn unit_bytes_are_low_first(u: Seq<u16>, b: Seq<u8>, i: int)
    requires
        bytes_of(u, b),
        0 <= i < u.len(),
    ensures
        b.len() == 2 * u.len(),
        u[i] == b[2 * i] + 256 * b[2 * i + 1],
{
}

/// The id and the name under which notifications are sent.
pub proof fn notifications_have_their_own_name()
    ensures
        TOAST_APP_ID@ == "GlassMic"@,
        TOAST_NAME@ == "Glass Mic"@,
{
}

} // verus!
