//! Switching the default microphone: to the target on connect, back on disconnect.
//!
//! The audio endpoints belong to the operating system, so every call on them is made outside. What
//! is decided here: which endpoint is the target, what has to be remembered before switching, what
//! the state file says, whether a restore is due and what it sets.

use vstd::prelude::*;
use crate::{number, text};

verus! {

/// A recording endpoint.
#[derive(Debug)]
pub struct Endpoint {
    pub id: String,
    pub name: String,
}

impl Clone for Endpoint {
    fn clone(&self) -> (r: Self)
        ensures
            r@ == self@,
    {
        Endpoint { id: self.id.clone(), name: self.name.clone() }
    }
}

/// The texts of an endpoint.
pub struct EndpointView {
    pub id: Seq<char>,
    pub name: Seq<char>,
}

impl View for Endpoint {
    type V = EndpointView;

    open spec fn view(&self) -> EndpointView {
        EndpointView { id: self.id@, name: self.name@ }
    }
}

/// What a state file holds: the target, if it is named, and the remembered microphone per role.
pub struct StateView {
    pub target: Option<EndpointView>,
    pub previous: Seq<(int, EndpointView)>,
}

/// Texts of the remembered microphones.
pub open spec fn previous_view(prev: Seq<(i32, Endpoint)>) -> Seq<(int, EndpointView)> {
    prev.map_values(|p: (i32, Endpoint)| (p.0 as int, p.1@))
}

// ---------------------------------------------------------------------------------------------
// The state file
// ---------------------------------------------------------------------------------------------

/// A line without the carriage return that belongs to its line ending.
pub open spec fn without_cr(s: Seq<char>) -> Seq<char> {
    if s.len() > 0 && s.last() == '\r' {
        s.drop_last()
    } else {
        s
    }
}

/// The lines of a text. A line ends with a line feed, which may follow a carriage return; the
/// ending of the last line is optional.
pub open spec fn lines(s: Seq<char>) -> Seq<Seq<char>>
    decreases s.len(),
    via lines_decreases
{
    if s.len() == 0 {
        Seq::empty()
    } else {
        match s.index_of_first('\n') {
            Some(i) => seq![without_cr(s.take(i))] + lines(s.skip(i + 1)),
            None => seq![s],
        }
    }
}

#[via_fn]
proof fn lines_decreases(s: Seq<char>) {
    s.index_of_first_ensures('\n');
}

/// The three fields of a line: up to the first tab, up to the second, and the rest.
pub open spec fn fields(line: Seq<char>) -> Option<(Seq<char>, Seq<char>, Seq<char>)> {
    match line.index_of_first('\t') {
        None => None,
        Some(i) => {
            let rest = line.skip(i + 1);
            match rest.index_of_first('\t') {
                None => None,
                Some(j) => Some((line.take(i), rest.take(j), rest.skip(j + 1))),
            }
        },
    }
}

/// What one more line adds to the state: `T` names the target, a number the microphone of that
/// role; any other line is ignored.
pub open spec fn with_line(st: StateView, line: Seq<char>) -> StateView {
    match fields(line) {
        None => st,
        Some((role, id, name)) => {
            let ep = EndpointView { id, name };
            if role == seq!['T'] {
                StateView { target: Some(ep), ..st }
            } else {
                match number::parsed_i32(text::trimmed(role)) {
                    Some(r) => StateView { previous: st.previous.push((r, ep)), ..st },
                    None => st,
                }
            }
        },
    }
}

/// The state that a sequence of lines describes.
pub open spec fn state_of_lines(ls: Seq<Seq<char>>) -> StateView
    decreases ls.len(),
{
    if ls.len() == 0 {
        StateView { target: None, previous: Seq::empty() }
    } else {
        with_line(state_of_lines(ls.drop_last()), ls.last())
    }
}

/// The state that a file's text describes.
pub open spec fn state_of(body: Seq<char>) -> StateView {
    state_of_lines(lines(body))
}

/// One line of the state file.
pub open spec fn record(role: Seq<char>, ep: EndpointView) -> Seq<char> {
    role + seq!['\t'] + ep.id + seq!['\t'] + ep.name
}

/// The text of the state file: a line for the target, then one per remembered microphone.
pub open spec fn state_text(target: EndpointView, prev: Seq<(int, EndpointView)>) -> Seq<char>
    decreases prev.len(),
{
    if prev.len() == 0 {
        record(seq!['T'], target)
    } else {
        state_text(target, prev.drop_last()) + seq!['\n'] + record(
            number::decimal_int(prev.last().0),
            prev.last().1,
        )
    }
}

/// Appends one line of the state file.
fn push_record(s: &mut String, role: &str, ep: &Endpoint)
    ensures
        final(s)@ == old(s)@ + record(role@, ep@),
{
    s.append(role);
    s.push('\t');
    s.append(&ep.id);
    s.push('\t');
    s.append(&ep.name);
    assert(s@ == old(s)@ + record(role@, ep@));
}

/// The text that is saved before switching, so that a killed process can be recovered from.
pub fn render_state(target: &Endpoint, prev: &Vec<(i32, Endpoint)>) -> (r: String)
    ensures
        r@ == state_text(target@, previous_view(prev@)),
{
    let mut s = String::new();
    proof {
        reveal_strlit("T");
        assert("T"@ == seq!['T']);
    }
    push_record(&mut s, "T", target);
    assert(s@ == record(seq!['T'], target@));
    assert(previous_view(prev@.take(0)) == Seq::<(int, EndpointView)>::empty());
    for i in 0..prev.len()
        invariant
            s@ == state_text(target@, previous_view(prev@.take(i as int))),
    {
        let ghost before = s@;
        s.push('\n');
        let mut role = String::new();
        number::push_decimal_i32(&mut role, prev[i].0);
        push_record(&mut s, &role, &prev[i].1);
        proof {
            let now = previous_view(prev@.take(i + 1));
            assert(now.drop_last() == previous_view(prev@.take(i as int)));
            assert(role@ == number::decimal_int(prev@[i as int].0 as int));
            assert(s@ == before + seq!['\n'] + record(role@, prev@[i as int].1@));
        }
    }
    assert(prev@.take(prev@.len() as int) == prev@);
    s
}

/// The lines of a text.
fn split_lines(v: &[char]) -> (r: Vec<Vec<char>>)
    ensures
        r@.map_values(|l: Vec<char>| l@) == lines(v@),
{
    let ghost as_seq = |l: Vec<char>| l@;
    let mut r: Vec<Vec<char>> = Vec::new();
    let mut start: usize = 0;
    let mut i: usize = 0;
    assert(v@.skip(0) == v@);
    assert(r@.map_values(as_seq) + lines(v@) == lines(v@));
    while i < v.len()
        invariant
            start <= i <= v@.len(),
            as_seq == (|l: Vec<char>| l@),
            forall|j: int| start <= j < i ==> v@[j] != '\n',
            r@.map_values(as_seq) + lines(v@.skip(start as int)) == lines(v@),
        decreases v@.len() - i,
    {
        if v[i] == '\n' {
            let ghost rest = v@.skip(start as int);
            let ghost before = r@;
            let end: usize = if i > start && v[i - 1] == '\r' {
                i - 1
            } else {
                i
            };
            let line = text::slice_of(v, start, end);
            proof {
                rest.index_of_first_ensures('\n');
                assert(rest[i - start] == '\n');
                assert(rest.contains('\n'));
                assert(rest.take(i - start) == v@.subrange(start as int, i as int));
                assert(without_cr(rest.take(i - start)) == line@);
                assert(rest.skip(i - start + 1) == v@.skip(i + 1));
            }
            r.push(line);
            proof {
                assert(r@.map_values(as_seq) == before.map_values(as_seq).push(line@));
                assert(r@.map_values(as_seq) + lines(v@.skip(i + 1)) == before.map_values(as_seq)
                    + lines(rest));
            }
            start = i + 1;
        }
        i = i + 1;
    }
    proof {
        v@.skip(start as int).index_of_first_ensures('\n');
    }
    if start < v.len() {
        let ghost before = r@;
        let line = text::slice_of(v, start, v.len());
        proof {
            assert(line@ == v@.skip(start as int));
        }
        r.push(line);
        proof {
            assert(r@.map_values(as_seq) == before.map_values(as_seq) + seq![line@]);
        }
    }
    r
}

/// The three fields of a line, if it has that many.
fn split_fields(v: &[char]) -> (r: Option<(Vec<char>, Vec<char>, Vec<char>)>)
    ensures
        match r {
            Some((a, b, c)) => fields(v@) == Some((a@, b@, c@)),
            None => fields(v@) is None,
        },
{
    proof {
        v@.index_of_first_ensures('\t');
    }
    let i = match text::find(v, '\t') {
        Some(i) => i,
        None => return None,
    };
    assert(i < v.len());
    let rest = text::slice_of(v, i + 1, v.len());
    proof {
        assert(rest@ == v@.skip(i + 1));
        rest@.index_of_first_ensures('\t');
    }
    let j = match text::find(&rest, '\t') {
        Some(j) => j,
        None => return None,
    };
    assert(j < rest.len());
    let a = text::slice_of(v, 0, i);
    let b = text::slice_of(&rest, 0, j);
    let c = text::slice_of(&rest, j + 1, rest.len());
    proof {
        assert(a@ == v@.take(i as int));
        assert(b@ == rest@.take(j as int));
        assert(c@ == rest@.skip(j + 1));
    }
    Some((a, b, c))
}

/// What a state file says: the target (older files have none) and the microphone per role.
pub type State = (Option<Endpoint>, Vec<(i32, Endpoint)>);

/// The texts of a parsed state.
pub open spec fn state_view(st: State) -> StateView {
    StateView {
        target: match st.0 {
            Some(t) => Some(t@),
            None => None,
        },
        previous: previous_view(st.1@),
    }
}

/// Reads a state file.
pub fn parse_state(body: &str) -> (r: State)
    ensures
        state_view(r) == state_of(body@),
{
    let chars = text::chars_of(body);
    let ls = split_lines(&chars);
    let ghost as_seq = |l: Vec<char>| l@;
    let ghost all = lines(body@);
    let mut target: Option<Endpoint> = None;
    let mut prev: Vec<(i32, Endpoint)> = Vec::new();
    proof {
        assert(all.take(0) == Seq::<Seq<char>>::empty());
        assert(previous_view(prev@) == Seq::<(int, EndpointView)>::empty());
    }
    for k in 0..ls.len()
        invariant
            as_seq == (|l: Vec<char>| l@),
            ls@.map_values(as_seq) == all,
            state_view((target, prev)) == state_of_lines(all.take(k as int)),
    {
        let line = &ls[k];
        let ghost st = state_of_lines(all.take(k as int));
        let ghost before = prev@;
        proof {
            assert(all[k as int] == ls@.map_values(as_seq)[k as int]);
            assert(all.take(k + 1).drop_last() == all.take(k as int));
            assert(all.take(k + 1).last() == line@);
            assert(state_of_lines(all.take(k + 1)) == with_line(st, line@));
        }
        match split_fields(line) {
            None => {},
            Some((role, id, name)) => {
                let ep = Endpoint { id: text::string_of(&id), name: text::string_of(&name) };
                if role.len() == 1 && role[0] == 'T' {
                    assert(role@ == seq!['T']);
                    target = Some(ep);
                } else {
                    match number::parse_i32(&text::trim(&role)) {
                        Some(r) => {
                            prev.push((r, ep));
                            assert(previous_view(prev@) == previous_view(before).push((r as int, ep@)));
                        },
                        None => {},
                    }
                }
            },
        }
    }
    assert(all.take(all.len() as int) == all);
    (target, prev)
}

// ---------------------------------------------------------------------------------------------
// Endpoints
// ---------------------------------------------------------------------------------------------

/// An active recording endpoint as the system lists it; its id or name may be unreadable.
#[derive(Debug)]
pub struct Capture {
    pub id: Option<String>,
    pub name: Option<String>,
}

/// The texts of a listed endpoint.
pub struct CaptureView {
    pub id: Option<Seq<char>>,
    pub name: Option<Seq<char>>,
}

/// The text of an optional string.
pub open spec fn text_of(s: Option<String>) -> Option<Seq<char>> {
    match s {
        Some(t) => Some(t@),
        None => None,
    }
}

impl View for Capture {
    type V = CaptureView;

    open spec fn view(&self) -> CaptureView {
        CaptureView { id: text_of(self.id), name: text_of(self.name) }
    }
}

/// The texts of a listing.
pub open spec fn listing(devices: Seq<Capture>) -> Seq<CaptureView> {
    devices.map_values(|d: Capture| d@)
}

/// The texts of optional strings.
pub open spec fn texts_of(v: Seq<Option<String>>) -> Seq<Option<Seq<char>>> {
    v.map_values(|s: Option<String>| text_of(s))
}

/// Whether a listed endpoint, whose name in lower case is `lowered`, is one that is looked for.
pub open spec fn is_hit(d: CaptureView, lowered: Option<Seq<char>>, needle: Seq<char>) -> bool {
    &&& d.id is Some
    &&& d.name is Some
    &&& lowered is Some
    &&& text::occurs(lowered->0, needle)
}

/// The first endpoint of a listing whose lower-case name holds `needle`.
pub open spec fn picked(
    devices: Seq<CaptureView>,
    lowered: Seq<Option<Seq<char>>>,
    needle: Seq<char>,
) -> Option<EndpointView>
    decreases devices.len(),
{
    if devices.len() == 0 {
        None
    } else if is_hit(devices[0], lowered[0], needle) {
        Some(EndpointView { id: devices[0].id->0, name: devices[0].name->0 })
    } else {
        picked(devices.skip(1), lowered.skip(1), needle)
    }
}

/// The names of a listing in lower case.
pub open spec fn lowered_names(devices: Seq<CaptureView>) -> Seq<Option<Seq<char>>> {
    devices.map_values(
        |d: CaptureView|
            match d.name {
                Some(n) => Some(text::lowercased(n)),
                None => None,
            },
    )
}

/// The first endpoint of a listing whose display name holds `filter`, whatever the letters' case.
pub open spec fn found(devices: Seq<CaptureView>, filter: Seq<char>) -> Option<EndpointView> {
    picked(devices, lowered_names(devices), text::lowercased(filter))
}

/// The first endpoint of a listing with an id other than `exclude`; an unreadable name is empty.
pub open spec fn other(devices: Seq<CaptureView>, exclude: Seq<char>) -> Option<EndpointView>
    decreases devices.len(),
{
    if devices.len() == 0 {
        None
    } else {
        match devices[0].id {
            Some(id) if id != exclude => Some(
                EndpointView {
                    id,
                    name: match devices[0].name {
                        Some(n) => n,
                        None => Seq::empty(),
                    },
                },
            ),
            _ => other(devices.skip(1), exclude),
        }
    }
}

/// The text view of an optional endpoint.
pub open spec fn endpoint_of(e: Option<Endpoint>) -> Option<EndpointView> {
    match e {
        Some(x) => Some(x@),
        None => None,
    }
}

/// Picks the first endpoint whose name, given in lower case, holds `needle`.
pub fn pick_capture(
    devices: &Vec<Capture>,
    lowered: &Vec<Option<String>>,
    needle: &str,
) -> (r: Option<Endpoint>)
    requires
        lowered@.len() == devices@.len(),
    ensures
        endpoint_of(r) == picked(listing(devices@), texts_of(lowered@), needle@),
{
    let ghost all = listing(devices@);
    let ghost low = texts_of(lowered@);
    let needle_chars = text::chars_of(needle);
    assert(all.skip(0) == all);
    assert(low.skip(0) == low);
    for i in 0..devices.len()
        invariant
            all == listing(devices@),
            low == texts_of(lowered@),
            lowered@.len() == devices@.len(),
            needle_chars@ == needle@,
            picked(all, low, needle@) == picked(all.skip(i as int), low.skip(i as int), needle@),
    {
        let d = &devices[i];
        proof {
            assert(all.skip(i as int)[0] == d@);
            assert(low.skip(i as int)[0] == text_of(lowered@[i as int]));
            assert(all.skip(i as int).skip(1) == all.skip(i + 1));
            assert(low.skip(i as int).skip(1) == low.skip(i + 1));
        }
        if let (Some(id), Some(name), Some(l)) = (&d.id, &d.name, &lowered[i]) {
            let l_chars = text::chars_of(l);
            if text::contains_text(&l_chars, &needle_chars) {
                return Some(Endpoint { id: id.clone(), name: name.clone() });
            }
        }
    }
    None
}

/// First active recording endpoint whose display name contains `filter` (case-insensitive).
pub fn find_capture(devices: &Vec<Capture>, filter: &str) -> (r: Option<Endpoint>)
    ensures
        endpoint_of(r) == found(listing(devices@), filter@),
{
    let ghost all = listing(devices@);
    let mut lowered: Vec<Option<String>> = Vec::new();
    for i in 0..devices.len()
        invariant
            all == listing(devices@),
            texts_of(lowered@) == lowered_names(all.take(i as int)),
    {
        let ghost before = lowered@;
        let l = match &devices[i].name {
            Some(n) => Some(text::to_lowercase(n)),
            None => None,
        };
        lowered.push(l);
        proof {
            assert(texts_of(lowered@) == texts_of(before).push(text_of(l)));
            assert(all[i as int] == devices@[i as int]@);
            assert(lowered_names(all.take(i + 1)) == lowered_names(all.take(i as int)).push(
                text_of(l),
            ));
        }
    }
    proof {
        assert(all.take(all.len() as int) == all);
        assert(texts_of(lowered@).len() == lowered@.len());
    }
    let needle = text::to_lowercase(filter);
    pick_capture(devices, &lowered, &needle)
}

/// First active recording endpoint other than `exclude` (when the remembered microphone is gone,
/// e.g. an unplugged USB headset).
pub fn other_capture(devices: &Vec<Capture>, exclude: &str) -> (r: Option<Endpoint>)
    ensures
        endpoint_of(r) == other(listing(devices@), exclude@),
{
    let ghost all = listing(devices@);
    assert(all.skip(0) == all);
    for i in 0..devices.len()
        invariant
            all == listing(devices@),
            other(all, exclude@) == other(all.skip(i as int), exclude@),
    {
        let d = &devices[i];
        proof {
            assert(all.skip(i as int)[0] == d@);
            assert(all.skip(i as int).skip(1) == all.skip(i + 1));
        }
        if let Some(id) = &d.id {
            if !text::same(id, exclude) {
                let name = match &d.name {
                    Some(n) => n.clone(),
                    None => String::new(),
                };
                return Some(Endpoint { id: id.clone(), name });
            }
        }
    }
    None
}

/// The three roles of a default endpoint: console, multimedia, communications.
pub const ROLES: i32 = 3;

/// The role a remembered index stands for; anything unknown is the console role.
pub open spec fn role_for(idx: int) -> int {
    if 0 <= idx < ROLES {
        idx
    } else {
        0
    }
}

/// The role a remembered index stands for; anything unknown is the console role.
pub fn role_of(idx: i32) -> (r: i32)
    ensures
        r == role_for(idx as int),
{
    if 0 <= idx && idx < ROLES {
        idx
    } else {
        0
    }
}

// ---------------------------------------------------------------------------------------------
// Switching
// ---------------------------------------------------------------------------------------------

/// Remembers what the default microphone was while the target is the default.
#[derive(Debug)]
pub struct MicSwitch {
    target_filter: String,
    target: Option<Endpoint>,
    previous: Option<Vec<(i32, Endpoint)>>,
}

/// What a `MicSwitch` knows.
#[verifier::ext_equal]
pub struct MicSwitchView {
    pub filter: Seq<char>,
    pub target: Option<EndpointView>,
    pub previous: Option<Seq<(int, EndpointView)>>,
}

impl View for MicSwitch {
    type V = MicSwitchView;

    closed spec fn view(&self) -> MicSwitchView {
        MicSwitchView {
            filter: self.target_filter@,
            target: endpoint_of(self.target),
            previous: match self.previous {
                Some(p) => Some(previous_view(p@)),
                None => None,
            },
        }
    }
}

impl MicSwitchView {
    /// The target is known exactly while something is remembered.
    pub open spec fn wf(self) -> bool {
        self.target is Some <==> self.previous is Some
    }
}

/// The default endpoints per role that differ from the target, with their role.
pub open spec fn remembered(
    target: EndpointView,
    defaults: Seq<Option<EndpointView>>,
) -> Seq<(int, EndpointView)>
    decreases defaults.len(),
{
    if defaults.len() == 0 {
        Seq::empty()
    } else {
        let before = remembered(target, defaults.drop_last());
        match defaults.last() {
            Some(e) if e.id != target.id => before.push((defaults.len() - 1, e)),
            _ => before,
        }
    }
}

/// The texts of the default endpoints.
pub open spec fn endpoints_of(v: Seq<Option<Endpoint>>) -> Seq<Option<EndpointView>> {
    v.map_values(|e: Option<Endpoint>| endpoint_of(e))
}

/// What has to happen to make the target the default.
#[derive(Debug)]
pub struct SwitchPlan {
    pub target: Endpoint,
    pub previous: Vec<(i32, Endpoint)>,
    /// Text of the state file, to be saved before anything is switched.
    pub state: String,
}

/// What `MicSwitch::activate` came to.
#[derive(Debug)]
pub enum Activation {
    /// Already switched, nothing to do.
    Unchanged,
    /// No active endpoint matches the filter.
    TargetNotFound,
    /// The target already is the default for every role.
    AlreadyDefault,
    /// Save the state, then report back with `MicSwitch::on_saved`.
    Switch(SwitchPlan),
}

/// What a restore needs from outside.
#[derive(Debug)]
pub enum Restore {
    /// Nothing was switched.
    Nothing,
    /// The user picked another microphone meanwhile, which stays: only the state file goes.
    KeepChoice,
    /// Set the remembered endpoints, one after the other.
    Run(RestoreRun),
}

/// What was found after a crash or hard kill.
#[derive(Debug, PartialEq, Eq, Structural, Clone, Copy)]
pub enum Recovery {
    /// There is no state file.
    Nothing,
    /// The target still is the default: restore now.
    Restore,
    /// The user picked another microphone meanwhile: only the state file goes.
    RemoveFile,
}

/// Whether two optional endpoints are both known and the same.
pub open spec fn same_endpoint(a: Option<EndpointView>, b: Option<EndpointView>) -> bool {
    a is Some && b is Some && a->0.id == b->0.id
}

/// The texts of what `MicSwitch::activate` came to.
#[verifier::ext_equal]
pub enum ActivationView {
    Unchanged,
    TargetNotFound,
    AlreadyDefault,
    Switch { target: EndpointView, previous: Seq<(int, EndpointView)>, state: Seq<char> },
}

impl View for Activation {
    type V = ActivationView;

    open spec fn view(&self) -> ActivationView {
        match *self {
            Activation::Unchanged => ActivationView::Unchanged,
            Activation::TargetNotFound => ActivationView::TargetNotFound,
            Activation::AlreadyDefault => ActivationView::AlreadyDefault,
            Activation::Switch(plan) => ActivationView::Switch {
                target: plan.target@,
                previous: previous_view(plan.previous@),
                state: plan.state@,
            },
        }
    }
}

/// What a restore needs from outside.
#[verifier::ext_equal]
pub enum RestoreView {
    Nothing,
    KeepChoice,
    Run(RestoreRunView),
}

impl View for Restore {
    type V = RestoreView;

    open spec fn view(&self) -> RestoreView {
        match *self {
            Restore::Nothing => RestoreView::Nothing,
            Restore::KeepChoice => RestoreView::KeepChoice,
            Restore::Run(run) => RestoreView::Run(run@),
        }
    }
}

impl MicSwitchView {
    /// The switch after an activation, and what it came to.
    pub open spec fn activated(
        self,
        devices: Seq<CaptureView>,
        defaults: Seq<Option<EndpointView>>,
    ) -> (MicSwitchView, ActivationView) {
        if self.previous is Some {
            (self, ActivationView::Unchanged)
        } else {
            match found(devices, self.filter) {
                None => (self, ActivationView::TargetNotFound),
                Some(t) => {
                    let prev = remembered(t, defaults);
                    if prev.len() == 0 {
                        (
                            MicSwitchView { target: Some(t), previous: Some(prev), ..self },
                            ActivationView::AlreadyDefault,
                        )
                    } else {
                        (
                            self,
                            ActivationView::Switch {
                                target: t,
                                previous: prev,
                                state: state_text(t, prev),
                            },
                        )
                    }
                },
            }
        }
    }

    /// The switch after the state file of a plan was saved, or not.
    pub open spec fn after_saving(
        self,
        target: EndpointView,
        previous: Seq<(int, EndpointView)>,
        saved: bool,
    ) -> MicSwitchView {
        if saved {
            MicSwitchView { target: Some(target), previous: Some(previous), ..self }
        } else {
            self
        }
    }

    /// The switch after a restore was asked for, and what it needs.
    pub open spec fn restored(self, current: Option<EndpointView>) -> (MicSwitchView, RestoreView) {
        match self.previous {
            None => (self, RestoreView::Nothing),
            Some(prev) => {
                let forgotten = MicSwitchView { target: None, previous: None, ..self };
                if prev.len() == 0 {
                    (forgotten, RestoreView::Nothing)
                } else if self.target is Some && current is Some && !same_endpoint(
                    self.target,
                    current,
                ) {
                    (forgotten, RestoreView::KeepChoice)
                } else {
                    (
                        forgotten,
                        RestoreView::Run(
                            RestoreRunView {
                                previous: prev,
                                exclude: match self.target {
                                    Some(t) => t.id,
                                    None => Seq::empty(),
                                },
                                next: 0,
                                fallback: false,
                                all_ok: true,
                            },
                        ),
                    )
                }
            },
        }
    }

    /// The switch after the look at the state file that an earlier run left, and what was found.
    pub open spec fn recovered(
        self,
        body: Option<Seq<char>>,
        devices: Seq<CaptureView>,
        current: Option<EndpointView>,
    ) -> (MicSwitchView, Recovery) {
        match body {
            None => (self, Recovery::Nothing),
            Some(b) => {
                let st = state_of(b);
                let target = match st.target {
                    Some(t) => Some(t),
                    None => found(devices, self.filter),
                };
                if same_endpoint(target, current) && st.previous.len() > 0 {
                    (
                        MicSwitchView { target, previous: Some(st.previous), ..self },
                        Recovery::Restore,
                    )
                } else {
                    (self, Recovery::RemoveFile)
                }
            },
        }
    }
}

impl MicSwitch {
    /// A switch that remembers nothing. `target_filter` is a part of the target's display name.
    pub fn new(target_filter: &str) -> (r: Self)
        ensures
            r@ == (MicSwitchView { filter: target_filter@, target: None, previous: None }),
            r@.wf(),
    {
        MicSwitch { target_filter: target_filter.to_owned(), target: None, previous: None }
    }

    /// Whether something is remembered.
    pub fn is_active(&self) -> (r: bool)
        ensures
            r == self@.previous is Some,
    {
        self.previous.is_some()
    }

    /// Remembers the current default microphones (per role) and plans to make the target the
    /// default. Idempotent: once switched, nothing is remembered or changed; if the target already
    /// is the default everywhere, nothing has to be set.
    pub fn activate(&mut self, devices: &Vec<Capture>, defaults: &[Option<Endpoint>; 3]) -> (r:
        Activation)
        ensures
            old(self)@.wf() ==> final(self)@.wf(),
            old(self)@.previous is Some ==> r is Unchanged && final(self)@ == old(self)@,
            old(self)@.previous is None ==> match found(listing(devices@), old(self)@.filter) {
                None => r is TargetNotFound && final(self)@ == old(self)@,
                Some(t) => {
                    let prev = remembered(t, endpoints_of(defaults@));
                    if prev.len() == 0 {
                        &&& r is AlreadyDefault
                        &&& final(self)@ == (MicSwitchView {
                            target: Some(t),
                            previous: Some(prev),
                            ..old(self)@
                        })
                    } else {
                        &&& r matches Activation::Switch(plan)
                        &&& plan.target@ == t
                        &&& previous_view(plan.previous@) == prev
                        &&& plan.state@ == state_text(t, prev)
                        &&& final(self)@ == old(self)@
                    }
                },
            },
            (final(self)@, r@) == old(self)@.activated(listing(devices@), endpoints_of(defaults@)),
    {
        if self.previous.is_some() {
            return Activation::Unchanged;
        }
        let target = match find_capture(devices, &self.target_filter) {
            Some(t) => t,
            None => return Activation::TargetNotFound,
        };
        let ghost t = target@;
        let ghost ds = endpoints_of(defaults@);
        let mut prev: Vec<(i32, Endpoint)> = Vec::new();
        assert(previous_view(prev@) == Seq::<(int, EndpointView)>::empty());
        assert(ds.take(0) == Seq::<Option<EndpointView>>::empty());
        let mut i: usize = 0;
        while i < 3
            invariant
                i <= 3,
                t == target@,
                ds == endpoints_of(defaults@),
                ds.len() == 3,
                previous_view(prev@) == remembered(t, ds.take(i as int)),
            decreases 3 - i,
        {
            let ghost before = prev@;
            proof {
                assert(ds.take(i + 1).drop_last() == ds.take(i as int));
                assert(ds[i as int] == endpoint_of(defaults@[i as int]));
            }
            if let Some(cur) = &defaults[i] {
                if !text::same(&cur.id, &target.id) {
                    let e = cur.clone();
                    prev.push((i as i32, e));
                    assert(previous_view(prev@) == previous_view(before).push((i as int, e@)));
                }
            }
            i = i + 1;
        }
        assert(ds.take(3) == ds);
        assert(previous_view(prev@).len() == prev@.len());
        if prev.is_empty() {
            self.previous = Some(prev);
            self.target = Some(target);
            return Activation::AlreadyDefault;
        }
        let state = render_state(&target, &prev);
        Activation::Switch(SwitchPlan { target, previous: prev, state })
    }

    /// The state file of a plan was saved, or not. If it was, the plan is remembered (also if a
    /// role then fails, so that a restore cleans up all roles) and the endpoints to set per role
    /// are returned; if not, nothing is switched.
    pub fn on_saved(&mut self, plan: SwitchPlan, saved: bool) -> (r: Vec<(i32, String)>)
        ensures
            old(self)@.wf() ==> final(self)@.wf(),
            saved ==> {
                &&& final(self)@ == (MicSwitchView {
                    target: Some(plan.target@),
                    previous: Some(previous_view(plan.previous@)),
                    ..old(self)@
                })
                &&& r@.len() == ROLES
                &&& forall|i: int|
                    0 <= i < ROLES ==> (#[trigger] r@[i]).0 == i && r@[i].1@ == plan.target@.id
            },
            !saved ==> final(self)@ == old(self)@ && r@.len() == 0,
            final(self)@ == old(self)@.after_saving(
                plan.target@,
                previous_view(plan.previous@),
                saved,
            ),
    {
        let mut r: Vec<(i32, String)> = Vec::new();
        if saved {
            r.push((0, plan.target.id.clone()));
            r.push((1, plan.target.id.clone()));
            r.push((2, plan.target.id.clone()));
            self.previous = Some(plan.previous);
            self.target = Some(plan.target);
        }
        r
    }

    /// Forgets the remembered microphones and says how to restore them. `current` is the default
    /// endpoint of the console role. Only while the target is still the default (or that is
    /// unknown: better restore than leave the target as the default).
    pub fn restore(&mut self, current: &Option<Endpoint>) -> (r: Restore)
        ensures
            final(self)@ == (if old(self)@.previous is None {
                old(self)@
            } else {
                MicSwitchView { target: None, previous: None, ..old(self)@ }
            }),
            final(self)@.previous is None,
            old(self)@.wf() ==> final(self)@.wf(),
            match old(self)@.previous {
                None => r is Nothing,
                Some(prev) => {
                    let target = old(self)@.target;
                    let now = endpoint_of(*current);
                    if prev.len() == 0 {
                        r is Nothing
                    } else if target is Some && now is Some && !same_endpoint(target, now) {
                        r is KeepChoice
                    } else {
                        &&& r matches Restore::Run(run)
                        &&& run@ == (RestoreRunView {
                            previous: prev,
                            exclude: match target {
                                Some(t) => t.id,
                                None => Seq::empty(),
                            },
                            next: 0,
                            fallback: false,
                            all_ok: true,
                        })
                        &&& run@.wf()
                    }
                },
            },
            (final(self)@, r@) == old(self)@.restored(endpoint_of(*current)),
    {
        let prev = match self.previous.take() {
            Some(p) => p,
            None => return Restore::Nothing,
        };
        let target = self.target.take();
        assert(previous_view(prev@).len() == prev@.len());
        if prev.is_empty() {
            return Restore::Nothing;
        }
        let still_default = match (&target, current) {
            (Some(t), Some(d)) => text::same(&d.id, &t.id),
            _ => true,
        };
        if !still_default {
            return Restore::KeepChoice;
        }
        let exclude = match target {
            Some(t) => t.id,
            None => String::new(),
        };
        Restore::Run(RestoreRun { previous: prev, exclude, next: 0, fallback: false, all_ok: true })
    }

    /// After a crash or hard kill: if the remembered target (or, in an old file, the endpoint that
    /// matches the filter) is still the default, the remembered microphones are taken over for a
    /// restore. `body` is the text of the state file, `current` the console default.
    pub fn recover(
        &mut self,
        body: &Option<String>,
        devices: &Vec<Capture>,
        current: &Option<Endpoint>,
    ) -> (r: Recovery)
        requires
            old(self)@.wf(),
        ensures
            final(self)@.wf(),
            match *body {
                None => r == Recovery::Nothing && final(self)@ == old(self)@,
                Some(b) => {
                    let st = state_of(b@);
                    let target = match st.target {
                        Some(t) => Some(t),
                        None => found(listing(devices@), old(self)@.filter),
                    };
                    if same_endpoint(target, endpoint_of(*current)) && st.previous.len() > 0 {
                        &&& r == Recovery::Restore
                        &&& final(self)@ == (MicSwitchView {
                            target,
                            previous: Some(st.previous),
                            ..old(self)@
                        })
                    } else {
                        r == Recovery::RemoveFile && final(self)@ == old(self)@
                    }
                },
            },
            (final(self)@, r) == old(self)@.recovered(
                text_of(*body),
                listing(devices@),
                endpoint_of(*current),
            ),
    {
        let text = match body {
            Some(b) => b,
            None => return Recovery::Nothing,
        };
        let (named, prev) = parse_state(text);
        let target = match named {
            Some(t) => Some(t),
            None => find_capture(devices, &self.target_filter),
        };
        let target_is_default = match (&target, current) {
            (Some(t), Some(d)) => text::same(&d.id, &t.id),
            _ => false,
        };
        assert(previous_view(prev@).len() == prev@.len());
        if target_is_default && prev.len() > 0 {
            self.target = target;
            self.previous = Some(prev);
            Recovery::Restore
        } else {
            Recovery::RemoveFile
        }
    }
}

/// A restore in progress: the remembered endpoints are set one after the other, and where one
/// cannot be set (the device may be gone), another one is tried.
#[derive(Debug)]
pub struct RestoreRun {
    previous: Vec<(i32, Endpoint)>,
    exclude: String,
    next: usize,
    fallback: bool,
    all_ok: bool,
}

/// How far a restore has come.
#[verifier::ext_equal]
pub struct RestoreRunView {
    pub previous: Seq<(int, EndpointView)>,
    pub exclude: Seq<char>,
    /// The remembered microphone that is being set.
    pub next: int,
    /// Whether another endpoint is tried in its place.
    pub fallback: bool,
    /// Whether every role so far has got a microphone.
    pub all_ok: bool,
}

impl View for RestoreRun {
    type V = RestoreRunView;

    closed spec fn view(&self) -> RestoreRunView {
        RestoreRunView {
            previous: previous_view(self.previous@),
            exclude: self.exclude@,
            next: self.next as int,
            fallback: self.fallback,
            all_ok: self.all_ok,
        }
    }
}

/// What a restore wants next.
#[derive(Debug)]
pub enum RestoreAction {
    /// Make `id` the default of `role`, then report with `RestoreRun::step`.
    MakeDefault { id: String, role: i32 },
    /// All roles were tried. The state file goes if each has got a microphone; else it stays and
    /// the next start tries again.
    Done { remove_file: bool },
}

/// The texts of a restore's next step.
pub enum RestoreActionView {
    MakeDefault { id: Seq<char>, role: int },
    Done { remove_file: bool },
}

impl View for RestoreAction {
    type V = RestoreActionView;

    open spec fn view(&self) -> RestoreActionView {
        match *self {
            RestoreAction::MakeDefault { id, role } => RestoreActionView::MakeDefault { id: id@, role: role as int },
            RestoreAction::Done { remove_file } => RestoreActionView::Done { remove_file },
        }
    }
}

impl RestoreRunView {
    /// A remembered microphone is being set.
    pub open spec fn wf(self) -> bool {
        0 <= self.next < self.previous.len()
    }

    /// What is wanted when a microphone is to be set for the first time.
    pub open spec fn first_try(self) -> RestoreActionView {
        RestoreActionView::MakeDefault {
            id: self.previous[self.next].1.id,
            role: role_for(self.previous[self.next].0),
        }
    }

    /// The next remembered microphone, or the end.
    pub open spec fn advanced(self, ok: bool) -> (RestoreRunView, RestoreActionView) {
        let s = RestoreRunView {
            next: self.next + 1,
            fallback: false,
            all_ok: self.all_ok && ok,
            ..self
        };
        if s.next < s.previous.len() {
            (s, s.first_try())
        } else {
            (s, RestoreActionView::Done { remove_file: s.all_ok })
        }
    }

    /// What follows once the last endpoint was set (`ok`) or could not be set.
    pub open spec fn stepped(self, ok: bool, devices: Seq<CaptureView>) -> (
        RestoreRunView,
        RestoreActionView,
    ) {
        if ok || self.fallback {
            self.advanced(ok)
        } else {
            match other(devices, self.exclude) {
                Some(f) => (
                    RestoreRunView { fallback: true, ..self },
                    RestoreActionView::MakeDefault {
                        id: f.id,
                        role: role_for(self.previous[self.next].0),
                    },
                ),
                None => self.advanced(false),
            }
        }
    }
}

impl RestoreRun {
    /// The first endpoint to set.
    pub fn start(&self) -> (r: RestoreAction)
        requires
            self@.wf(),
        ensures
            r@ == self@.first_try(),
    {
        assert(self@.previous[self@.next] == (
            self.previous@[self.next as int].0 as int,
            self.previous@[self.next as int].1@,
        ));
        let p = &self.previous[self.next];
        RestoreAction::MakeDefault { id: p.1.id.clone(), role: role_of(p.0) }
    }

    /// The last endpoint was set (`ok`) or could not be set; `devices` are the active recording
    /// endpoints to fall back to.
    pub fn step(&mut self, ok: bool, devices: &Vec<Capture>) -> (r: RestoreAction)
        requires
            old(self)@.wf(),
        ensures
            (final(self)@, r@) == old(self)@.stepped(ok, listing(devices@)),
            r is MakeDefault ==> final(self)@.wf(),
            r is Done ==> old(self)@.next + 1 == old(self)@.previous.len(),
            final(self)@.previous == old(self)@.previous,
    {
        assert(self@.previous[self@.next] == (
            self.previous@[self.next as int].0 as int,
            self.previous@[self.next as int].1@,
        ));
        if !ok && !self.fallback {
            match other_capture(devices, &self.exclude) {
                Some(f) => {
                    self.fallback = true;
                    let role = role_of(self.previous[self.next].0);
                    return RestoreAction::MakeDefault { id: f.id, role };
                },
                None => {},
            }
        }
        assert(self.next < self.previous.len());
        self.all_ok = self.all_ok && ok;
        self.fallback = false;
        self.next = self.next + 1;
        if self.next < self.previous.len() {
            self.start()
        } else {
            RestoreAction::Done { remove_file: self.all_ok }
        }
    }
}

// ---------------------------------------------------------------------------------------------
// Laws
// ---------------------------------------------------------------------------------------------

/// Whether an endpoint can be written to the state file as a line and read back.
pub open spec fn storable(ep: EndpointView) -> bool {
    &&& !ep.id.contains('\t')
    &&& !ep.id.contains('\n')
    &&& !ep.name.contains('\n')
}

/// Whether a line may follow the endpoint's line: a carriage return at the end of the name would
/// be taken for a part of the line ending.
pub open spec fn closable(ep: EndpointView) -> bool {
    ep.name.len() > 0 ==> ep.name.last() != '\r'
}

/// One more line without a line feed, after an open last line.
proof fn lemma_lines_push(a: Seq<char>, b: Seq<char>)
    requires
        a.len() > 0,
        a.last() != '\n',
        a.last() != '\r',
        b.len() > 0,
        !b.contains('\n'),
    ensures
        lines(a + seq!['\n'] + b) == lines(a).push(b),
    decreases a.len(),
{
    let s = a + seq!['\n'] + b;
    a.index_of_first_ensures('\n');
    s.index_of_first_ensures('\n');
    b.index_of_first_ensures('\n');
    assert(s[a.len() as int] == '\n');
    assert(s.contains('\n'));
    let i = s.index_of_first('\n')->0;
    assert(lines(b) == seq![b]);
    if a.contains('\n') {
        let k = a.index_of_first('\n')->0;
        assert(s[k] == a[k]);
        assert(s[i] == '\n');
        assert(i <= k);
        if i < k {
            assert(a[i] == s[i]);
            assert(false);
        }
        let rest = a.skip(i + 1);
        assert(s.take(i) == a.take(i));
        assert(s.skip(i + 1) == rest + seq!['\n'] + b);
        assert(i + 1 < a.len());
        assert(rest.last() == a.last());
        lemma_lines_push(rest, b);
        assert(lines(s) == seq![without_cr(a.take(i))] + lines(rest).push(b));
        assert(lines(s) == lines(a).push(b));
    } else {
        if i < a.len() {
            assert(a[i] == s[i]);
            assert(a.contains('\n'));
        }
        assert(i == a.len());
        assert(s.take(i) == a);
        assert(s.skip(i + 1) == b);
        assert(lines(a) == seq![a]);
        assert(lines(s) == seq![a] + seq![b]);
        assert(lines(s) == lines(a).push(b));
    }
}

/// A line of the state file splits into the fields that it was made of.
proof fn lemma_fields_of_record(role: Seq<char>, ep: EndpointView)
    requires
        !role.contains('\t'),
        !ep.id.contains('\t'),
    ensures
        fields(record(role, ep)) == Some((role, ep.id, ep.name)),
{
    let line = record(role, ep);
    line.index_of_first_ensures('\t');
    assert(line[role.len() as int] == '\t');
    assert(line.contains('\t'));
    let i = line.index_of_first('\t')->0;
    if i < role.len() {
        assert(role[i] == line[i]);
        assert(role.contains('\t'));
    }
    assert(i == role.len());
    let rest = line.skip(i + 1);
    assert(rest == ep.id + seq!['\t'] + ep.name);
    rest.index_of_first_ensures('\t');
    assert(rest[ep.id.len() as int] == '\t');
    assert(rest.contains('\t'));
    let j = rest.index_of_first('\t')->0;
    if j < ep.id.len() {
        assert(ep.id[j] == rest[j]);
        assert(ep.id.contains('\t'));
    }
    assert(line.take(i) == role);
    assert(rest.take(j) == ep.id);
    assert(rest.skip(j + 1) == ep.name);
}

/// A role number has no white space, tab or line feed in it, and is not the target's letter.
proof fn lemma_role_text(r: int)
    requires
        i32::MIN <= r <= i32::MAX,
    ensures
        number::decimal_int(r).len() > 0,
        !number::decimal_int(r).contains('\t'),
        !number::decimal_int(r).contains('\n'),
        number::decimal_int(r) != seq!['T'],
        text::trimmed(number::decimal_int(r)) == number::decimal_int(r),
        number::parsed_i32(text::trimmed(number::decimal_int(r))) == Some(r),
{
    let d = number::decimal_int(r);
    number::decimal_int_reads_back(r as i32);
    if r < 0 {
        number::lemma_decimal((-r) as nat);
        let m = number::decimal((-r) as nat);
        assert forall|i: int| 0 <= i < d.len() implies d[i] == '-' || number::is_digit(
            #[trigger] d[i],
        ) by {
            if i > 0 {
                assert(d[i] == m[i - 1]);
                assert(number::is_digit(m[i - 1]));
            }
        }
    } else {
        number::lemma_decimal(r as nat);
        assert forall|i: int| 0 <= i < d.len() implies d[i] == '-' || number::is_digit(
            #[trigger] d[i],
        ) by {
            assert(number::is_digit(number::decimal(r as nat)[i]));
        }
    }
    assert(d[0] == '-' || number::is_digit(d[0]));
    assert(d.last() == '-' || number::is_digit(d.last()));
    assert(seq!['T'][0] == 'T');
}

/// The text of the state file: its lines are the records, and it ends with an open line.
proof fn lemma_state_lines(target: EndpointView, prev: Seq<(int, EndpointView)>)
    requires
        storable(target),
        prev.len() > 0 ==> closable(target),
        forall|i: int| 0 <= i < prev.len() ==> storable((#[trigger] prev[i]).1),
        forall|i: int| 0 <= i < prev.len() - 1 ==> closable((#[trigger] prev[i]).1),
        forall|i: int|
            0 <= i < prev.len() ==> i32::MIN <= (#[trigger] prev[i]).0 <= i32::MAX,
    ensures
        lines(state_text(target, prev)).len() == prev.len() + 1,
        lines(state_text(target, prev))[0] == record(seq!['T'], target),
        forall|i: int|
            0 <= i < prev.len() ==> #[trigger] lines(state_text(target, prev))[i + 1] == record(
                number::decimal_int(prev[i].0),
                prev[i].1,
            ),
    decreases prev.len(),
{
    if prev.len() == 0 {
        let s = record(seq!['T'], target);
        lemma_no_newline(seq!['T'], target);
        s.index_of_first_ensures('\n');
        assert(lines(s) == seq![s]);
    } else {
        let init = prev.drop_last();
        lemma_state_lines(target, init);
        let a = state_text(target, init);
        let last = prev.last();
        let b = record(number::decimal_int(last.0), last.1);
        lemma_role_text(last.0);
        lemma_no_newline(number::decimal_int(last.0), last.1);
        lemma_state_text_end(target, init);
        lemma_lines_push(a, b);
        let all = lines(state_text(target, prev));
        assert(all == lines(a).push(b));
        assert forall|i: int| 0 <= i < prev.len() implies #[trigger] all[i + 1] == record(
            number::decimal_int(prev[i].0),
            prev[i].1,
        ) by {
            if i < init.len() {
                assert(init[i] == prev[i]);
                assert(lines(a)[i + 1] == record(number::decimal_int(init[i].0), init[i].1));
            }
        }
    }
}

/// A record of storable texts holds no line feed.
proof fn lemma_no_newline(role: Seq<char>, ep: EndpointView)
    requires
        !role.contains('\n'),
        storable(ep),
    ensures
        !record(role, ep).contains('\n'),
        record(role, ep).len() > 0,
{
    let s = record(role, ep);
    if s.contains('\n') {
        let k = choose|k: int| 0 <= k < s.len() && s[k] == '\n';
        let a = role.len() as int;
        let b = ep.id.len() as int;
        if k < a {
            assert(role[k] == '\n');
        } else if a < k < a + 1 + b {
            assert(ep.id[k - a - 1] == '\n');
        } else if k > a + 1 + b {
            assert(ep.name[k - a - b - 2] == '\n');
        }
        assert(false);
    }
}

/// The text of the state file ends with the last record's name, or with the tab before it.
proof fn lemma_state_text_end(target: EndpointView, prev: Seq<(int, EndpointView)>)
    requires
        storable(target),
        closable(target),
        forall|i: int| 0 <= i < prev.len() ==> storable((#[trigger] prev[i]).1),
        forall|i: int| 0 <= i < prev.len() ==> closable((#[trigger] prev[i]).1),
    ensures
        state_text(target, prev).len() > 0,
        state_text(target, prev).last() != '\n',
        state_text(target, prev).last() != '\r',
{
    let ep = if prev.len() == 0 {
        target
    } else {
        prev.last().1
    };
    let s = state_text(target, prev);
    if prev.len() > 0 {
        assert(storable(prev[prev.len() - 1].1));
        assert(closable(prev[prev.len() - 1].1));
    }
    if ep.name.len() > 0 {
        assert(s.last() == ep.name.last());
        assert(ep.name[ep.name.len() - 1] == ep.name.last());
        assert(ep.name.contains(ep.name.last()));
    } else {
        assert(s.last() == '\t');
    }
}

/// What is saved is what is read back: the target and every remembered microphone, in order, with
/// their ids and names (tabs in names survive). Left out are texts that a line cannot hold: an id
/// with a tab or a line feed, a name with a line feed, and a name that ends with a carriage return
/// where another line follows.
pub proof fn state_file_round_trip(target: EndpointView, prev: Seq<(int, EndpointView)>)
    requires
        storable(target),
        prev.len() > 0 ==> closable(target),
        forall|i: int| 0 <= i < prev.len() ==> storable((#[trigger] prev[i]).1),
        forall|i: int| 0 <= i < prev.len() - 1 ==> closable((#[trigger] prev[i]).1),
        forall|i: int|
            0 <= i < prev.len() ==> i32::MIN <= (#[trigger] prev[i]).0 <= i32::MAX,
    ensures
        state_of(state_text(target, prev)) == (StateView { target: Some(target), previous: prev }),
{
    lemma_state_lines(target, prev);
    lemma_state_of_records(target, prev, lines(state_text(target, prev)));
}

/// A killed run is recovered from: what `activate` saved before switching is what `recover` takes
/// over on the next start, as long as the target still is the default.
pub proof fn saved_plan_is_recovered(
    target: EndpointView,
    prev: Seq<(int, EndpointView)>,
    devices: Seq<CaptureView>,
    filter: Seq<char>,
)
    requires
        storable(target),
        closable(target),
        forall|i: int| 0 <= i < prev.len() ==> storable((#[trigger] prev[i]).1),
        forall|i: int| 0 <= i < prev.len() - 1 ==> closable((#[trigger] prev[i]).1),
        forall|i: int|
            0 <= i < prev.len() ==> i32::MIN <= (#[trigger] prev[i]).0 <= i32::MAX,
        prev.len() > 0,
    ensures
        ({
            let st = state_of(state_text(target, prev));
            let t = match st.target {
                Some(t) => Some(t),
                None => found(devices, filter),
            };
            &&& same_endpoint(t, Some(target))
            &&& t == Some(target)
            &&& st.previous == prev
            &&& st.previous.len() > 0
        }),
{
    state_file_round_trip(target, prev);
}

/// Only microphones other than the target are remembered, each with the role it was the default
/// of, at most one per role, in the order of the roles.
pub proof fn remembered_differ_from_target(
    target: EndpointView,
    defaults: Seq<Option<EndpointView>>,
)
    ensures
        remembered(target, defaults).len() <= defaults.len(),
        forall|i: int|
            0 <= i < remembered(target, defaults).len() ==> {
                let (role, e) = #[trigger] remembered(target, defaults)[i];
                0 <= role < defaults.len() && defaults[role] == Some(e) && e.id != target.id
            },
        forall|i: int, j: int|
            0 <= i < j < remembered(target, defaults).len() ==> (#[trigger] remembered(
                target,
                defaults,
            )[i]).0 < (#[trigger] remembered(target, defaults)[j]).0,
        forall|role: int|
            0 <= role < defaults.len() && (#[trigger] defaults[role]) is Some
                && defaults[role]->0.id != target.id ==> remembered(target, defaults).contains(
                (role, defaults[role]->0),
            ),
    decreases defaults.len(),
{
    if defaults.len() > 0 {
        let init = defaults.drop_last();
        remembered_differ_from_target(target, init);
        let before = remembered(target, init);
        let all = remembered(target, defaults);
        assert forall|i: int| 0 <= i < all.len() implies {
            let (role, e) = #[trigger] all[i];
            0 <= role < defaults.len() && defaults[role] == Some(e) && e.id != target.id
        } by {
            if i < before.len() {
                assert(all[i] == before[i]);
                assert(init[before[i].0] == defaults[before[i].0]);
            }
        }
        assert forall|i: int, j: int| 0 <= i < j < all.len() implies (#[trigger] all[i]).0
            < (#[trigger] all[j]).0 by {
            assert(all[i] == before[i]);
            if j < before.len() {
                assert(all[j] == before[j]);
            }
        }
        assert forall|role: int|
            0 <= role < defaults.len() && (#[trigger] defaults[role]) is Some
                && defaults[role]->0.id != target.id implies all.contains(
            (role, defaults[role]->0),
        ) by {
            if role < init.len() {
                assert(init[role] == defaults[role]);
                let k = choose|k: int|
                    0 <= k < before.len() && before[k] == (role, defaults[role]->0);
                assert(all[k] == before[k]);
            } else {
                assert(all[all.len() - 1] == (role, defaults[role]->0));
            }
        }
    }
}

/// The state of a restore after `n` endpoints in a row could be set.
pub open spec fn after_successes(run: RestoreRunView, n: nat) -> RestoreRunView
    decreases n,
{
    if n == 0 {
        run
    } else {
        after_successes(run, (n - 1) as nat).stepped(true, Seq::empty()).0
    }
}

/// A restore in which every endpoint can be set gives each remembered microphone back to its own
/// role, in order, and then drops the state file.
pub proof fn restore_gives_back_every_role(run: RestoreRunView, n: nat)
    requires
        run.wf(),
        run.next == 0,
        run.all_ok,
        !run.fallback,
        n < run.previous.len(),
    ensures
        after_successes(run, n).wf(),
        after_successes(run, n).first_try() == (RestoreActionView::MakeDefault {
            id: run.previous[n as int].1.id,
            role: role_for(run.previous[n as int].0),
        }),
        after_successes(run, n).stepped(true, Seq::empty()).1 == (if n + 1 < run.previous.len() {
            after_successes(run, n + 1).first_try()
        } else {
            RestoreActionView::Done { remove_file: true }
        }),
        after_successes(run, n) == (RestoreRunView { next: n as int, ..run }),
    decreases n,
{
    if n > 0 {
        restore_gives_back_every_role(run, (n - 1) as nat);
    }
    assert(after_successes(run, n) == (RestoreRunView { next: n as int, ..run }));
    assert(after_successes(run, n + 1) == after_successes(run, n).stepped(true, Seq::empty()).0);
}

/// Once a role has ended without a microphone, the state file stays whatever comes after.
pub proof fn failed_restore_keeps_the_file(
    run: RestoreRunView,
    ok: bool,
    devices: Seq<CaptureView>,
)
    requires
        run.wf(),
        !run.all_ok || (!ok && (run.fallback || other(devices, run.exclude) is None)),
    ensures
        !run.stepped(ok, devices).0.all_ok,
        run.stepped(ok, devices).1 != (RestoreActionView::Done { remove_file: true }),
{
}

/// The microphone fallen back to is never the target itself.
pub proof fn fallback_is_not_the_target(devices: Seq<CaptureView>, exclude: Seq<char>)
    ensures
        other(devices, exclude) matches Some(e) ==> e.id != exclude,
    decreases devices.len(),
{
    if devices.len() > 0 {
        fallback_is_not_the_target(devices.skip(1), exclude);
    }
}

/// The state that the records' lines describe.
proof fn lemma_state_of_records(
    target: EndpointView,
    prev: Seq<(int, EndpointView)>,
    ls: Seq<Seq<char>>,
)
    requires
        storable(target),
        forall|i: int| 0 <= i < prev.len() ==> storable((#[trigger] prev[i]).1),
        forall|i: int|
            0 <= i < prev.len() ==> i32::MIN <= (#[trigger] prev[i]).0 <= i32::MAX,
        ls.len() == prev.len() + 1,
        ls[0] == record(seq!['T'], target),
        forall|i: int|
            0 <= i < prev.len() ==> #[trigger] ls[i + 1] == record(
                number::decimal_int(prev[i].0),
                prev[i].1,
            ),
    ensures
        state_of_lines(ls) == (StateView { target: Some(target), previous: prev }),
    decreases prev.len(),
{
    if prev.len() == 0 {
        assert(!seq!['T'].contains('\t'));
        lemma_fields_of_record(seq!['T'], target);
        assert(ls.drop_last() == Seq::<Seq<char>>::empty());
        let none = state_of_lines(ls.drop_last());
        assert(none.previous == prev);
    } else {
        let init = prev.drop_last();
        let before = ls.drop_last();
        assert forall|i: int| 0 <= i < init.len() implies #[trigger] before[i + 1] == record(
            number::decimal_int(init[i].0),
            init[i].1,
        ) by {
            assert(ls[i + 1] == record(number::decimal_int(prev[i].0), prev[i].1));
        }
        lemma_state_of_records(target, init, before);
        let last = prev[prev.len() - 1];
        lemma_role_text(last.0);
        lemma_fields_of_record(number::decimal_int(last.0), last.1);
        assert(ls[(prev.len() - 1) + 1] == record(number::decimal_int(last.0), last.1));
        assert(ls.last() == record(number::decimal_int(last.0), last.1));
        assert(init.push(last) == prev);
    }
}

/// Of a restore's calls, whether each could be done, and the devices listed after it.
pub struct RestoreCall {
    pub ok: bool,
    pub devices: Seq<CaptureView>,
}

/// A restore after a row of calls.
pub open spec fn restore_after(run: RestoreRunView, calls: Seq<RestoreCall>) -> RestoreRunView
    decreases calls.len(),
{
    if calls.len() == 0 {
        run
    } else {
        restore_after(run, calls.drop_last()).stepped(calls.last().ok, calls.last().devices).0
    }
}

/// What a restore wants after a row of calls.
pub open spec fn wanted_after(run: RestoreRunView, calls: Seq<RestoreCall>) -> RestoreActionView {
    if calls.len() == 0 {
        run.first_try()
    } else {
        restore_after(run, calls.drop_last()).stepped(calls.last().ok, calls.last().devices).1
    }
}

/// Whether the call number `k` asks for the `j`-th remembered microphone, for the role it had.
pub open spec fn asks_for(
    run: RestoreRunView,
    calls: Seq<RestoreCall>,
    k: int,
    j: int,
) -> bool {
    wanted_after(run, calls.take(k)) == (RestoreActionView::MakeDefault {
        id: run.previous[j].1.id,
        role: role_for(run.previous[j].0),
    })
}

/// Whether the call number `k` is about the role of the `j`-th remembered microphone and was done.
pub open spec fn serves(run: RestoreRunView, calls: Seq<RestoreCall>, k: int, j: int) -> bool {
    &&& calls[k].ok
    &&& restore_after(run, calls.take(k)).next == j
    &&& wanted_after(run, calls.take(k)) matches RestoreActionView::MakeDefault { id, role }
    &&& role == role_for(run.previous[j].0)
}

/// Whether some call asks for the `j`-th remembered microphone, for the role it had.
pub open spec fn asked(run: RestoreRunView, calls: Seq<RestoreCall>, j: int) -> bool {
    exists|k: int| 0 <= k < calls.len() && #[trigger] asks_for(run, calls, k, j)
}

/// Whether some call about the role of the `j`-th remembered microphone was done.
pub open spec fn served(run: RestoreRunView, calls: Seq<RestoreCall>, j: int) -> bool {
    exists|k: int| 0 <= k < calls.len() && #[trigger] serves(run, calls, k, j)
}

/// How far a restore is after a row of calls.
proof fn lemma_restore(run: RestoreRunView, calls: Seq<RestoreCall>)
    requires
        run.wf(),
        run.next == 0,
        run.all_ok,
        !run.fallback,
        forall|k: int|
            0 <= k < calls.len() ==> !(#[trigger] wanted_after(run, calls.take(k)) is Done),
    ensures
        ({
            let w = restore_after(run, calls);
            let wanted = wanted_after(run, calls);
            &&& w.previous == run.previous
            &&& w.exclude == run.exclude
            &&& 0 <= w.next <= run.previous.len()
            &&& wanted is Done <==> w.next == run.previous.len()
            &&& wanted matches RestoreActionView::Done { remove_file } ==> remove_file == w.all_ok
            &&& w.next < run.previous.len() && !w.fallback ==> wanted
                == RestoreActionView::MakeDefault {
                id: run.previous[w.next].1.id,
                role: role_for(run.previous[w.next].0),
            }
            &&& wanted matches RestoreActionView::MakeDefault { id, role } ==> role == role_for(
                run.previous[w.next].0,
            )
            &&& forall|j: int|
                0 <= j < w.next || (j == w.next && w.fallback) ==> #[trigger] asked(run, calls, j)
            &&& w.all_ok <==> forall|j: int|
                0 <= j < w.next ==> #[trigger] served(run, calls, j)
            &&& forall|j: int| j >= w.next ==> !(#[trigger] served(run, calls, j))
        }),
    decreases calls.len(),
{
    if calls.len() > 0 {
        let init = calls.drop_last();
        let n = init.len() as int;
        assert forall|k: int| 0 <= k < init.len() implies !(#[trigger] wanted_after(
            run,
            init.take(k),
        ) is Done) by {
            assert(init.take(k) =~= calls.take(k));
            assert(!(wanted_after(run, calls.take(k)) is Done));
        }
        lemma_restore(run, init);
        assert(calls.take(n) =~= init);
        assert(!(wanted_after(run, calls.take(n)) is Done));
        let v = restore_after(run, init);
        let w = restore_after(run, calls);
        let last = calls.last();
        assert forall|k: int, j: int| 0 <= k < n implies #[trigger] asks_for(run, calls, k, j)
            == asks_for(run, init, k, j) by {
            assert(init.take(k) =~= calls.take(k));
        }
        assert forall|k: int, j: int| 0 <= k < n implies #[trigger] serves(run, calls, k, j)
            == serves(run, init, k, j) by {
            assert(init.take(k) =~= calls.take(k));
            assert(init[k] == calls[k]);
        }
        assert forall|j: int| #[trigger] asked(run, calls, j) == (asked(run, init, j) || asks_for(
            run,
            calls,
            n,
            j,
        )) by {
            if asked(run, init, j) {
                let k = choose|k: int| 0 <= k < n && #[trigger] asks_for(run, init, k, j);
                assert(asks_for(run, calls, k, j));
            }
            if asked(run, calls, j) && !asks_for(run, calls, n, j) {
                let k = choose|k: int|
                    0 <= k < calls.len() && #[trigger] asks_for(run, calls, k, j);
                assert(asks_for(run, init, k, j));
            }
        }
        assert forall|j: int| #[trigger] served(run, calls, j) == (served(run, init, j) || (last.ok
            && j == v.next)) by {
            assert(serves(run, calls, n, j) == (last.ok && j == v.next));
            if served(run, init, j) {
                let k = choose|k: int| 0 <= k < n && #[trigger] serves(run, init, k, j);
                assert(serves(run, calls, k, j));
            }
            if served(run, calls, j) && !serves(run, calls, n, j) {
                let k = choose|k: int| 0 <= k < calls.len() && #[trigger] serves(run, calls, k, j);
                assert(serves(run, init, k, j));
            }
        }
        if !v.fallback {
            assert(asks_for(run, calls, n, v.next));
        }
        if !w.all_ok {
            if v.all_ok {
                assert(!served(run, calls, v.next));
            } else {
                let j = choose|j: int| 0 <= j < v.next && !(#[trigger] served(run, init, j));
                assert(!served(run, calls, j));
            }
        }
    }
}

/// A restore tries every remembered role, however the calls turn out: when it is done, the microphone
/// of each one has been asked for, for its role. The state file goes exactly if for every role some
/// call could be done.
pub proof fn a_restore_tries_every_role(
    run: RestoreRunView,
    calls: Seq<RestoreCall>,
    remove_file: bool,
)
    requires
        run.wf(),
        run.next == 0,
        run.all_ok,
        !run.fallback,
        forall|k: int|
            0 <= k < calls.len() ==> !(#[trigger] wanted_after(run, calls.take(k)) is Done),
        wanted_after(run, calls) == (RestoreActionView::Done { remove_file }),
    ensures
        forall|j: int| 0 <= j < run.previous.len() ==> #[trigger] asked(run, calls, j),
        remove_file <==> forall|j: int|
            0 <= j < run.previous.len() ==> #[trigger] served(run, calls, j),
        calls.len() >= run.previous.len(),
{
    lemma_restore(run, calls);
    lemma_one_role_per_call(run, calls);
}

/// A call moves on by one role at most.
proof fn lemma_one_role_per_call(run: RestoreRunView, calls: Seq<RestoreCall>)
    ensures
        restore_after(run, calls).next <= run.next + calls.len(),
    decreases calls.len(),
{
    if calls.len() > 0 {
        lemma_one_role_per_call(run, calls.drop_last());
    }
}

/// One step of a restore. Once a microphone is set, or the one fallen back to has been tried, the next
/// remembered one is asked for, for its own role, and after the last one the restore is done, whatever
/// came out. A microphone that cannot be set is followed by the fallback for the same role, if there
/// is one; if not, by the next remembered one.
pub proof fn a_restore_goes_on(run: RestoreRunView, ok: bool, devices: Seq<CaptureView>)
    requires
        run.wf(),
    ensures
        ({
            let (next, wanted) = run.stepped(ok, devices);
            let falls_back = !ok && !run.fallback && other(devices, run.exclude) is Some;
            &&& next.previous == run.previous
            &&& next.exclude == run.exclude
            &&& falls_back ==> {
                &&& next.next == run.next
                &&& next.fallback
                &&& next.all_ok == run.all_ok
                &&& wanted == RestoreActionView::MakeDefault {
                    id: other(devices, run.exclude)->0.id,
                    role: role_for(run.previous[run.next].0),
                }
            }
            &&& !falls_back ==> {
                &&& next.next == run.next + 1
                &&& !next.fallback
                &&& next.all_ok == (run.all_ok && ok)
                &&& run.next + 1 < run.previous.len() ==> wanted == RestoreActionView::MakeDefault {
                    id: run.previous[run.next + 1].1.id,
                    role: role_for(run.previous[run.next + 1].0),
                }
                &&& run.next + 1 == run.previous.len() ==> wanted == RestoreActionView::Done {
                    remove_file: run.all_ok && ok,
                }
            }
        }),
        run.first_try() == (RestoreActionView::MakeDefault {
            id: run.previous[run.next].1.id,
            role: role_for(run.previous[run.next].0),
        }),
{
}

/// The three roles stand for themselves; any other number for the console role.
pub proof fn there_are_three_roles(idx: int)
    ensures
        role_for(0) == 0,
        role_for(1) == 1,
        role_for(2) == 2,
        idx < 0 || idx > 2 ==> role_for(idx) == 0,
{
}

/// The endpoint fallen back to is the first one listed with an id other than the excluded one; if no
/// other is listed, there is none.
pub proof fn the_first_other_is_taken(devices: Seq<CaptureView>, exclude: Seq<char>, i: int)
    ensures
        0 <= i < devices.len() && devices[i].id is Some && devices[i].id->0 != exclude && (forall|
            j: int,
        |
            0 <= j < i ==> (#[trigger] devices[j]).id is None || devices[j].id->0 == exclude) ==> {
            &&& other(devices, exclude) is Some
            &&& other(devices, exclude)->0.id == devices[i].id->0
            &&& devices[i].name is Some ==> other(devices, exclude)->0.name == devices[i].name->0
            &&& devices[i].name is None ==> other(devices, exclude)->0.name.len() == 0
        },
        (forall|j: int|
            0 <= j < devices.len() ==> (#[trigger] devices[j]).id is None || devices[j].id->0
                == exclude) ==> other(devices, exclude) is None,
    decreases devices.len(),
{
    if devices.len() > 0 {
        let rest = devices.skip(1);
        the_first_other_is_taken(rest, exclude, i - 1);
        assert(forall|j: int| 0 <= j < rest.len() ==> #[trigger] rest[j] == devices[j + 1]);
        if i > 0 && i < devices.len() {
            assert(rest[i - 1] == devices[i]);
        }
    }
}

/// The endpoint that is looked for is the first one listed with an id, whose name holds the filter
/// when both are in lower case; if none does, there is none.
pub proof fn the_first_match_is_found(devices: Seq<CaptureView>, filter: Seq<char>, i: int)
    ensures
        0 <= i < devices.len() && matching(devices[i], filter) && (forall|j: int|
            0 <= j < i ==> !matching(#[trigger] devices[j], filter)) ==> {
            &&& found(devices, filter) is Some
            &&& found(devices, filter)->0.id == devices[i].id->0
            &&& found(devices, filter)->0.name == devices[i].name->0
        },
        (forall|j: int| 0 <= j < devices.len() ==> !matching(#[trigger] devices[j], filter))
            ==> found(devices, filter) is None,
    decreases devices.len(),
{
    if devices.len() > 0 {
        let rest = devices.skip(1);
        the_first_match_is_found(rest, filter, i - 1);
        assert(lowered_names(rest) =~= lowered_names(devices).skip(1));
        assert(forall|j: int| 0 <= j < rest.len() ==> #[trigger] rest[j] == devices[j + 1]);
        assert(matching(devices[0], filter) == is_hit(
            devices[0],
            lowered_names(devices)[0],
            text::lowercased(filter),
        )) by {
            if devices[0].name is Some {
                let name = text::lowercased(devices[0].name->0);
                let part = text::lowercased(filter);
                if text::occurs(name, part) {
                    let k = choose|k: int| text::occurs_at(name, part, k);
                    assert(name.subrange(k, k + part.len()) == part);
                }
                if matching(devices[0], filter) {
                    let k = choose|k: int|
                        0 <= k && k + part.len() <= name.len() && #[trigger] name.subrange(
                            k,
                            k + part.len(),
                        ) == part;
                    assert(text::occurs_at(name, part, k));
                }
            }
        }
        if i > 0 && i < devices.len() {
            assert(rest[i - 1] == devices[i]);
        }
    }
}

/// Whether a listed endpoint can be read and its name in lower case holds the filter in lower case.
pub open spec fn matching(d: CaptureView, filter: Seq<char>) -> bool {
    &&& d.id is Some
    &&& d.name is Some
    &&& exists|k: int|
        0 <= k && k + text::lowercased(filter).len() <= text::lowercased(d.name->0).len()
            && #[trigger] text::lowercased(d.name->0).subrange(
            k,
            k + text::lowercased(filter).len(),
        ) == text::lowercased(filter)
}

/// Two endpoints are the same if both are known and have the same id.
pub proof fn endpoints_are_known_by_their_id(a: EndpointView, b: EndpointView)
    ensures
        same_endpoint(Some(a), Some(b)) <==> a.id == b.id,
        !same_endpoint(None, Some(b)),
        !same_endpoint(Some(a), None),
        !same_endpoint(None, None),
{
}

/// A line of the state file is a role, an id and a name with tabs between them; the name is all that
/// follows the second tab.
pub proof fn tabs_part_the_fields(role: Seq<char>, id: Seq<char>, name: Seq<char>)
    requires
        !role.contains('\t'),
        !id.contains('\t'),
    ensures
        fields(role + seq!['\t'] + id + seq!['\t'] + name) == Some((role, id, name)),
        fields(role + seq!['\t'] + id) is None,
        fields(role) is None,
        record(role, EndpointView { id, name }) == role + seq!['\t'] + id + seq!['\t'] + name,
{
    lemma_fields_of_record(role, EndpointView { id, name });
    role.index_of_first_ensures('\t');
    let two = role + seq!['\t'] + id;
    two.index_of_first_ensures('\t');
    assert(two[role.len() as int] == '\t');
    let i = two.index_of_first('\t')->0;
    if i < role.len() {
        assert(role[i] == '\t');
    }
    assert(i == role.len());
    assert(two.skip(i + 1) =~= id);
    id.index_of_first_ensures('\t');
}

/// The lines of a text are parted by line feeds, and a carriage return before one belongs to it; the
/// last line needs no ending.
pub proof fn line_feeds_part_the_lines(line: Seq<char>, rest: Seq<char>)
    requires
        !line.contains('\n'),
    ensures
        line.len() == 0 || line.last() != '\r' ==> {
            &&& lines(line + seq!['\n'] + rest) == seq![line] + lines(rest)
            &&& lines(line + seq!['\r', '\n'] + rest) == seq![line] + lines(rest)
        },
        line.len() > 0 ==> lines(line) == seq![line],
        lines(Seq::empty()).len() == 0,
{
    let a = line + seq!['\n'] + rest;
    a.index_of_first_ensures('\n');
    assert(a[line.len() as int] == '\n');
    let i = a.index_of_first('\n')->0;
    if i < line.len() {
        assert(line[i] == '\n');
    }
    assert(a.take(i) =~= line);
    assert(a.skip(i + 1) =~= rest);
    let b = line + seq!['\r', '\n'] + rest;
    b.index_of_first_ensures('\n');
    assert(b[line.len() as int + 1] == '\n');
    let j = b.index_of_first('\n')->0;
    if j < line.len() {
        assert(line[j] == '\n');
    }
    assert(b[line.len() as int] == '\r');
    assert(j == line.len() + 1);
    assert(b.take(j) =~= line.push('\r'));
    assert(line.push('\r').drop_last() =~= line);
    assert(b.skip(j + 1) =~= rest);
    line.index_of_first_ensures('\n');
}

/// What a line of the state file adds: one with the role `T` names the target, in place of any before;
/// one with a number the microphone of that role, after all before; any other adds nothing.
pub proof fn what_a_line_says(
    before: Seq<Seq<char>>,
    role: Seq<char>,
    id: Seq<char>,
    name: Seq<char>,
    n: i32,
    other: Seq<char>,
)
    requires
        !role.contains('\t'),
        !id.contains('\t'),
        !other.contains('\t'),
    ensures
        ({
            let st = state_of_lines(before);
            let ep = EndpointView { id, name };
            let line = role + seq!['\t'] + id + seq!['\t'] + name;
            let numbered = number::decimal_int(n as int) + seq!['\t'] + id + seq!['\t'] + name;
            &&& role == seq!['T'] ==> state_of_lines(before.push(line)) == StateView {
                target: Some(ep),
                previous: st.previous,
            }
            &&& state_of_lines(before.push(numbered)) == StateView {
                target: st.target,
                previous: st.previous.push((n as int, ep)),
            }
            &&& role != seq!['T'] && number::parsed_i32(text::trimmed(role)) is None
                ==> state_of_lines(before.push(line)) == st
            &&& role != seq!['T'] && number::parsed_i32(text::trimmed(role)) is Some
                ==> state_of_lines(before.push(line)) == StateView {
                target: st.target,
                previous: st.previous.push((number::parsed_i32(text::trimmed(role))->0, ep)),
            }
            &&& state_of_lines(before.push(other)) == st
        }),
        state_of_lines(Seq::empty()).target is None,
        state_of_lines(Seq::empty()).previous.len() == 0,
{
    let line = role + seq!['\t'] + id + seq!['\t'] + name;
    let number = number::decimal_int(n as int);
    let numbered = number + seq!['\t'] + id + seq!['\t'] + name;
    tabs_part_the_fields(role, id, name);
    lemma_role_text(n as int);
    tabs_part_the_fields(number, id, name);
    other.index_of_first_ensures('\t');
    assert(before.push(line).drop_last() =~= before);
    assert(before.push(numbered).drop_last() =~= before);
    assert(before.push(other).drop_last() =~= before);
}

/// The state file holds a line for the target and one per remembered microphone, in order, each with
/// its role as a number, parted by line feeds.
pub proof fn the_state_file_has_a_line_each(
    target: EndpointView,
    prev: Seq<(int, EndpointView)>,
    role: int,
    ep: EndpointView,
)
    ensures
        state_text(target, Seq::empty()) == seq!['T', '\t'] + target.id + seq!['\t'] + target.name,
        state_text(target, prev.push((role, ep))) == state_text(target, prev) + seq!['\n']
            + number::decimal_int(role) + seq!['\t'] + ep.id + seq!['\t'] + ep.name,
{
    assert(state_text(target, Seq::empty()) =~= seq!['T', '\t'] + target.id + seq!['\t']
        + target.name);
    assert(prev.push((role, ep)).drop_last() =~= prev);
    assert(state_text(target, prev.push((role, ep))) =~= state_text(target, prev) + seq!['\n']
        + number::decimal_int(role) + seq!['\t'] + ep.id + seq!['\t'] + ep.name);
}

/// Activating. Once something is remembered, it changes nothing; without an endpoint that fits, neither.
/// If the target is the default of every role already (or the role has none), there is nothing to set
/// and nothing to give back. Otherwise the plan names the target that was found, every default that is
/// another one, with its role, and the text to save; nothing is remembered before that is saved.
pub proof fn what_activating_comes_to(
    v: MicSwitchView,
    devices: Seq<CaptureView>,
    defaults: Seq<Option<EndpointView>>,
)
    ensures
        ({
            let (w, came) = v.activated(devices, defaults);
            let target = found(devices, v.filter);
            let all_set = target is Some && forall|role: int|
                0 <= role < defaults.len() ==> (#[trigger] defaults[role]) is None
                    || defaults[role]->0.id == target->0.id;
            &&& w.filter == v.filter
            &&& v.previous is Some ==> came is Unchanged && w == v
            &&& v.previous is None && target is None ==> came is TargetNotFound && w == v
            &&& v.previous is None && target is Some && all_set ==> {
                &&& came is AlreadyDefault
                &&& w.target == target
                &&& w.previous is Some
                &&& w.previous->0.len() == 0
            }
            &&& v.previous is None && target is Some && !all_set ==> {
                &&& w == v
                &&& came matches ActivationView::Switch { target: t, previous, state }
                &&& t == target->0
                &&& previous == remembered(t, defaults)
                &&& previous.len() > 0
                &&& state == state_text(t, previous)
            }
        }),
{
    if v.previous is None && found(devices, v.filter) is Some {
        let t = found(devices, v.filter)->0;
        remembered_differ_from_target(t, defaults);
        let prev = remembered(t, defaults);
        if prev.len() > 0 {
            let (role, e) = prev[0];
            assert(defaults[role] == Some(e) && e.id != t.id);
        } else {
            assert forall|role: int| 0 <= role < defaults.len() implies (#[trigger] defaults[role])
                is None || defaults[role]->0.id == t.id by {
                if defaults[role] is Some && defaults[role]->0.id != t.id {
                    assert(prev.contains((role, defaults[role]->0)));
                }
            }
        }
    }
}

/// A switch is undone: what an activation found as the defaults is, once its plan was saved, exactly
/// what a restore sets again, from the first one on, as long as the target still is the default or that
/// is not known; and afterwards nothing is remembered.
pub proof fn a_switch_is_undone(
    v: MicSwitchView,
    devices: Seq<CaptureView>,
    defaults: Seq<Option<EndpointView>>,
    current: Option<EndpointView>,
)
    requires
        v.activated(devices, defaults).1 is Switch,
        current is None || current->0.id == v.activated(devices, defaults).1->target.id,
    ensures
        ({
            let plan = v.activated(devices, defaults).1;
            let switched = v.after_saving(plan->target, plan->previous, true);
            let (w, needs) = switched.restored(current);
            &&& w.previous is None
            &&& w.target is None
            &&& w.filter == v.filter
            &&& needs matches RestoreView::Run(run)
            &&& run.previous == remembered(plan->target, defaults)
            &&& run.exclude == plan->target.id
            &&& run.next == 0
            &&& run.all_ok
            &&& !run.fallback
            &&& run.wf()
        }),
{
}

/// A plan that could not be saved changes nothing; one that was is remembered as it is.
pub proof fn only_saved_plans_are_remembered(
    v: MicSwitchView,
    target: EndpointView,
    previous: Seq<(int, EndpointView)>,
)
    ensures
        v.after_saving(target, previous, false) == v,
        v.after_saving(target, previous, true) == (MicSwitchView {
            filter: v.filter,
            target: Some(target),
            previous: Some(previous),
        }),
{
}

/// Restoring. Nothing is needed if nothing is remembered. If the user has picked another microphone than
/// the target meanwhile, that stays. Otherwise, and also if the current one or the target is not known,
/// everything that is remembered is set, with the target left out as a fallback. In any case nothing is
/// remembered afterwards.
pub proof fn what_restoring_needs(
    v: MicSwitchView,
    target: EndpointView,
    prev: Seq<(int, EndpointView)>,
    current: EndpointView,
)
    requires
        v.target == Some(target),
        v.previous == Some(prev),
        prev.len() > 0,
    ensures
        current.id != target.id ==> v.restored(Some(current)).1 is KeepChoice,
        current.id == target.id ==> v.restored(Some(current)).1 is Run,
        v.restored(None).1 is Run,
        v.restored(Some(current)).1 matches RestoreView::Run(run) ==> {
            &&& run.previous == prev
            &&& run.exclude == target.id
            &&& run.next == 0
            &&& run.all_ok
            &&& !run.fallback
        },
        v.restored(None).1 matches RestoreView::Run(run) ==> {
            &&& run.previous == prev
            &&& run.exclude == target.id
            &&& run.next == 0
            &&& run.all_ok
            &&& !run.fallback
        },
        v.restored(Some(current)).0 == (MicSwitchView {
            filter: v.filter,
            target: None,
            previous: None,
        }),
        v.restored(None).0 == v.restored(Some(current)).0,
        (MicSwitchView { previous: None, ..v }).restored(Some(current)).1 is Nothing,
        (MicSwitchView { previous: Some(Seq::empty()), ..v }).restored(Some(current)).1 is Nothing,
{
}

/// After a crash. Without a state file there is nothing to do. If the file names microphones and its
/// target (or, if it names none, the endpoint that fits the filter) is the current default, they are
/// remembered and to be restored; otherwise only the file goes and nothing is remembered.
pub proof fn what_is_recovered(
    v: MicSwitchView,
    body: Seq<char>,
    devices: Seq<CaptureView>,
    current: EndpointView,
)
    ensures
        v.recovered(None, devices, Some(current)) == (v, Recovery::Nothing),
        v.recovered(Some(body), devices, None) == (v, Recovery::RemoveFile),
        ({
            let st = state_of(body);
            let target = if st.target is Some {
                st.target
            } else {
                found(devices, v.filter)
            };
            let (w, came) = v.recovered(Some(body), devices, Some(current));
            &&& st.previous.len() > 0 && target is Some && target->0.id == current.id ==> {
                &&& came == Recovery::Restore
                &&& w.target == target
                &&& w.previous == Some(st.previous)
                &&& w.filter == v.filter
            }
            &&& st.previous.len() == 0 || target is None || target->0.id != current.id ==> came
                == Recovery::RemoveFile && w == v
        }),
{
}

/// A state file is read line by line: one more line at the end of a file adds what that line says to what
/// the file says without it.
pub proof fn a_state_file_is_read_line_by_line(
    body: Seq<char>,
    id: Seq<char>,
    name: Seq<char>,
    n: i32,
    other: Seq<char>,
)
    requires
        body.len() > 0,
        body.last() != '\n',
        body.last() != '\r',
        !id.contains('\t'),
        !id.contains('\n'),
        !name.contains('\n'),
        !other.contains('\t'),
        !other.contains('\n'),
        other.len() > 0,
    ensures
        ({
            let st = state_of(body);
            let ep = EndpointView { id, name };
            let numbered = number::decimal_int(n as int) + seq!['\t'] + id + seq!['\t'] + name;
            let named = seq!['T'] + seq!['\t'] + id + seq!['\t'] + name;
            &&& state_of(body + seq!['\n'] + numbered) == StateView {
                target: st.target,
                previous: st.previous.push((n as int, ep)),
            }
            &&& state_of(body + seq!['\n'] + named) == StateView {
                target: Some(ep),
                previous: st.previous,
            }
            &&& state_of(body + seq!['\n'] + other) == st
        }),
        state_of(Seq::empty()).target is None,
        state_of(Seq::empty()).previous.len() == 0,
{
    let ep = EndpointView { id, name };
    let number = number::decimal_int(n as int);
    let numbered = number + seq!['\t'] + id + seq!['\t'] + name;
    let named = seq!['T'] + seq!['\t'] + id + seq!['\t'] + name;
    lemma_role_text(n as int);
    lemma_no_newline(number, ep);
    lemma_no_newline(seq!['T'], ep);
    lemma_lines_push(body, numbered);
    lemma_lines_push(body, named);
    lemma_lines_push(body, other);
    what_a_line_says(lines(body), seq!['T'], id, name, n, other);
}

/// The target is known exactly while something is remembered, from the beginning and after every step:
/// activating, saving a plan, restoring and recovering.
pub proof fn the_target_is_known_while_something_is_remembered(
    v: MicSwitchView,
    devices: Seq<CaptureView>,
    defaults: Seq<Option<EndpointView>>,
    target: EndpointView,
    previous: Seq<(int, EndpointView)>,
    saved: bool,
    current: Option<EndpointView>,
    body: Option<Seq<char>>,
)
    requires
        v.target is Some == v.previous is Some,
    ensures
        v.wf(),
        v.activated(devices, defaults).0.target is Some == v.activated(
            devices,
            defaults,
        ).0.previous is Some,
        v.after_saving(target, previous, saved).target is Some == v.after_saving(
            target,
            previous,
            saved,
        ).previous is Some,
        v.restored(current).0.target is None,
        v.restored(current).0.previous is None,
        v.recovered(body, devices, current).0.target is Some == v.recovered(
            body,
            devices,
            current,
        ).0.previous is Some,
{
}

} // verus!
