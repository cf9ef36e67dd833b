//! How many connections are open and how many of them are clients, and what follows from it: with
//! the first client the default microphone is switched, some seconds after the last one it is
//! restored.

use vstd::prelude::*;
use crate::i18n;
use crate::i18n::{Device, Texts};
use crate::tray::TrayCommand;

verus! {

/// Concurrent WebSocket connections.
pub const MAX_CONNECTIONS: usize = 4;

// ---------------------------------------------------------------------------------------------
// Connections
// ---------------------------------------------------------------------------------------------

/// Open WebSocket connections, at most `MAX_CONNECTIONS`.
#[derive(Debug)]
pub struct Slots {
    open: usize,
}

impl View for Slots {
    type V = int;

    closed spec fn view(&self) -> int {
        self.open as int
    }
}

impl Slots {
    /// The cap holds.
    #[verifier::type_invariant]
    spec fn within_cap(self) -> bool {
        self.open <= MAX_CONNECTIONS
    }

    /// No connection is open.
    pub fn new() -> (r: Self)
        ensures
            r@ == 0,
    {
        Slots { open: 0 }
    }

    /// Takes a slot before the upgrade, so that the cap also holds under a burst of connections.
    /// Returns whether there was one.
    pub fn take(&mut self) -> (r: bool)
        ensures
            r == (old(self)@ < MAX_CONNECTIONS),
            final(self)@ == slots_taken(old(self)@),
            0 <= final(self)@ <= MAX_CONNECTIONS,
    {
        proof {
            use_type_invariant(&*self);
        }
        if self.open >= MAX_CONNECTIONS {
            false
        } else {
            self.open = self.open + 1;
            true
        }
    }

    /// Frees a slot when the connection (or a failed upgrade) ends.
    pub fn free(&mut self)
        ensures
            final(self)@ == slots_freed(old(self)@),
            0 <= final(self)@ <= MAX_CONNECTIONS,
    {
        proof {
            use_type_invariant(&*self);
        }
        if self.open > 0 {
            self.open = self.open - 1;
        }
    }
}

/// The HTTP status for a connection that gets no slot.
pub const UNAVAILABLE: u16 = 503;

/// What a connection is answered for its slot alone: nothing if it got one, else the status 503 and
/// its text.
pub fn slot_refusal(taken: bool) -> (r: Option<(u16, &'static str)>)
    ensures
        if taken {
            r is None
        } else {
            &&& r matches Some((status, body))
            &&& status == UNAVAILABLE
            &&& body@ == "too many connections"@
        },
{
    if taken {
        None
    } else {
        Some((UNAVAILABLE, "too many connections"))
    }
}

/// The open connections after one more has asked for a slot.
pub open spec fn slots_taken(open: int) -> int {
    if open < MAX_CONNECTIONS {
        open + 1
    } else {
        open
    }
}

/// The open connections after one has ended.
pub open spec fn slots_freed(open: int) -> int {
    if open > 0 {
        open - 1
    } else {
        0
    }
}

/// There are never more than four connections, and a slot that was taken and freed is there again.
pub proof fn connections_are_capped(open: int)
    requires
        0 <= open <= MAX_CONNECTIONS,
    ensures
        0 <= slots_taken(open) <= MAX_CONNECTIONS,
        0 <= slots_freed(open) <= MAX_CONNECTIONS,
        open < MAX_CONNECTIONS ==> slots_freed(slots_taken(open)) == open,
{
}

// ---------------------------------------------------------------------------------------------
// Clients
// ---------------------------------------------------------------------------------------------

/// The connections that count as clients.
#[derive(Debug)]
pub struct Clients {
    count: u32,
}

/// What to do when a client has joined.
#[derive(Debug)]
pub struct JoinStep {
    /// How many there are now.
    pub clients: u32,
    /// Whether to switch the default microphone.
    pub activate: bool,
    /// The notification to show.
    pub toast: Option<String>,
}

/// What to do when a client has left.
#[derive(Debug, Clone, Copy, PartialEq, Eq, Structural)]
pub struct LeaveStep {
    /// How many there are now.
    pub clients: u32,
    /// Whether to look again after the grace period.
    pub start_grace: bool,
}

/// What to do with the default microphone.
#[derive(Debug, Clone, Copy, PartialEq, Eq, Structural)]
pub enum SwitchAction {
    Activate,
    Restore,
    Nothing,
}

/// The clients after one more has joined.
pub open spec fn joined(n: u32) -> u32 {
    if n < u32::MAX {
        (n + 1) as u32
    } else {
        n
    }
}

/// The clients after one has left.
pub open spec fn left(n: u32) -> u32 {
    if n > 0 {
        (n - 1) as u32
    } else {
        0
    }
}

/// Whether a client that joins `n` others has the microphone switched.
pub open spec fn activates(n: u32, switching: bool) -> bool {
    joined(n) == 1 && switching
}

/// Whether a client that joins `n` others is announced.
pub open spec fn announces(n: u32, notify: bool) -> bool {
    joined(n) == 1 && notify
}

/// Whether nobody is left once one of `n` clients has left.
pub open spec fn leaves_nobody(n: u32) -> bool {
    left(n) == 0
}

/// What happens to the microphone when the grace period ends with `n` clients.
pub open spec fn after_grace(n: u32) -> SwitchAction {
    if n == 0 {
        SwitchAction::Restore
    } else {
        SwitchAction::Nothing
    }
}

/// What a command from the tray does to the microphone with `n` clients.
pub open spec fn after_command(n: u32, command: TrayCommand) -> SwitchAction {
    match command {
        TrayCommand::SetSwitching(true) => if n > 0 {
            SwitchAction::Activate
        } else {
            SwitchAction::Nothing
        },
        TrayCommand::SetSwitching(false) => SwitchAction::Restore,
        TrayCommand::Quit => SwitchAction::Nothing,
    }
}

impl View for Clients {
    type V = u32;

    closed spec fn view(&self) -> u32 {
        self.count
    }
}

impl Clients {
    /// There are none.
    pub fn new() -> (r: Self)
        ensures
            r@ == 0,
    {
        Clients { count: 0 }
    }

    /// How many there are.
    pub fn count(&self) -> (r: u32)
        ensures
            r == self@,
    {
        self.count
    }

    /// A client joins. The first one switches the microphone, if switching is on, and is announced,
    /// if notifications are.
    pub fn join(
        &mut self,
        texts: &Texts,
        device: Device,
        mic: &str,
        switching: bool,
        notify: bool,
    ) -> (r: JoinStep)
        ensures
            final(self)@ == joined(old(self)@),
            r.clients == final(self)@,
            r.activate == (final(self)@ == 1 && switching),
            r.activate == activates(old(self)@, switching),
            r.toast is Some <==> announces(old(self)@, notify),
            if final(self)@ == 1 && notify {
                r.toast is Some && r.toast->0@ == i18n::connected_toast(
                    texts.lang,
                    device,
                    mic@,
                    switching,
                )
            } else {
                r.toast is None
            },
    {
        if self.count < u32::MAX {
            self.count = self.count + 1;
        }
        let first = self.count == 1;
        let toast: Option<String> = if first && notify {
            Some(texts.toast_connected(device, mic, switching))
        } else {
            None
        };
        JoinStep { clients: self.count, activate: first && switching, toast }
    }

    /// A client leaves. After the last one the grace period starts.
    pub fn leave(&mut self) -> (r: LeaveStep)
        ensures
            final(self)@ == left(old(self)@),
            r.clients == final(self)@,
            r.start_grace == (final(self)@ == 0),
            r.start_grace == leaves_nobody(old(self)@),
    {
        if self.count > 0 {
            self.count = self.count - 1;
        }
        LeaveStep { clients: self.count, start_grace: self.count == 0 }
    }

    /// The grace period is over: the microphone is restored if nobody has come back.
    pub fn on_grace_over(&self) -> (r: SwitchAction)
        ensures
            r == (if self@ == 0 {
                SwitchAction::Restore
            } else {
                SwitchAction::Nothing
            }),
            r == after_grace(self@),
    {
        if self.count == 0 {
            SwitchAction::Restore
        } else {
            SwitchAction::Nothing
        }
    }

    /// What a command from the tray does to the microphone: switched off, the previous one comes
    /// back at once; switched on, it takes effect if somebody is connected.
    pub fn on_command(&self, command: TrayCommand) -> (r: SwitchAction)
        ensures
            r == (match command {
                TrayCommand::SetSwitching(true) => if self@ > 0 {
                    SwitchAction::Activate
                } else {
                    SwitchAction::Nothing
                },
                TrayCommand::SetSwitching(false) => SwitchAction::Restore,
                TrayCommand::Quit => SwitchAction::Nothing,
            }),
            r == after_command(self@, command),
    {
        match command {
            TrayCommand::SetSwitching(on) => if !on {
                SwitchAction::Restore
            } else if self.count > 0 {
                SwitchAction::Activate
            } else {
                SwitchAction::Nothing
            },
            TrayCommand::Quit => SwitchAction::Nothing,
        }
    }
}

/// The clients after a row of joins (`true`) and leaves (`false`).
pub open spec fn clients_after(n: u32, moves: Seq<bool>) -> u32
    decreases moves.len(),
{
    if moves.len() == 0 {
        n
    } else if moves.last() {
        joined(clients_after(n, moves.drop_last()))
    } else {
        left(clients_after(n, moves.drop_last()))
    }
}

/// How many joins a row holds more than leaves.
pub open spec fn balance(moves: Seq<bool>) -> int
    decreases moves.len(),
{
    if moves.len() == 0 {
        0
    } else {
        balance(moves.drop_last()) + (if moves.last() {
            1int
        } else {
            -1
        })
    }
}

/// Whether no row of moves so far leaves more often than it joins.
pub open spec fn balanced(moves: Seq<bool>) -> bool {
    forall|k: int| 0 <= k <= moves.len() ==> balance(#[trigger] moves.take(k)) >= 0
}

/// Where every client that leaves has joined before, the count is the number of those who are still
/// there; so the grace period starts exactly when everybody has left.
pub proof fn count_is_who_is_there(moves: Seq<bool>)
    requires
        balanced(moves),
        moves.len() < u32::MAX,
    ensures
        clients_after(0, moves) == balance(moves),
        balance(moves) <= moves.len(),
    decreases moves.len(),
{
    if moves.len() > 0 {
        let init = moves.drop_last();
        assert forall|k: int| 0 <= k <= init.len() implies balance(#[trigger] init.take(k))
            >= 0 by {
            assert(init.take(k) =~= moves.take(k));
        }
        count_is_who_is_there(init);
        assert(moves.take(moves.len() as int) =~= moves);
    }
}

/// The notification after the last client has left and the grace period is over.
pub fn leave_toast(texts: &Texts, device: Device, was_active: bool, notify: bool) -> (r: Option<String>)
    ensures
        if notify {
            r is Some && r->0@ == i18n::disconnected_toast(texts.lang, device, was_active)
        } else {
            r is None
        },
{
    if notify {
        Some(texts.toast_disconnected(device, was_active))
    } else {
        None
    }
}

/// The first client has the microphone switched and is announced, as far as that is turned on; no other
/// client does either.
pub proof fn only_the_first_client_switches(n: u32, switching: bool, notify: bool)
    ensures
        activates(0, true),
        !activates(n, false),
        n > 0 ==> !activates(n, switching),
        announces(0, true),
        !announces(n, false),
        n > 0 ==> !announces(n, notify),
{
}

/// The microphone is restored after the grace period exactly if nobody has come back: the last leave
/// starts it, and a join in between keeps the microphone.
pub proof fn restored_only_if_nobody_is_back(n: u32)
    requires
        n < u32::MAX,
    ensures
        leaves_nobody(n) <==> n <= 1,
        after_grace(left(1)) == SwitchAction::Restore,
        after_grace(joined(n)) == SwitchAction::Nothing,
        after_grace(0) == SwitchAction::Restore,
        joined(n) == n + 1,
        left(joined(n)) == n,
        left(0) == 0,
{
}

/// Turning switching off restores the microphone at once, whoever is connected; turning it on switches
/// exactly if somebody is; quitting does neither.
pub proof fn what_the_tray_commands_do(n: u32)
    ensures
        after_command(n, TrayCommand::SetSwitching(false)) == SwitchAction::Restore,
        n > 0 ==> after_command(n, TrayCommand::SetSwitching(true)) == SwitchAction::Activate,
        after_command(0, TrayCommand::SetSwitching(true)) == SwitchAction::Nothing,
        after_command(n, TrayCommand::Quit) == SwitchAction::Nothing,
{
}

/// Four connections get a slot, a fifth does not; each that ends gives one back.
pub proof fn there_are_four_slots(open: int)
    requires
        0 <= open <= 4,
    ensures
        open < 4 ==> slots_taken(open) == open + 1,
        slots_taken(4) == 4,
        open > 0 ==> slots_freed(open) == open - 1,
        slots_freed(0) == 0,
        MAX_CONNECTIONS == 4,
        UNAVAILABLE == 503,
{
}

} // verus!
