use couchmic::clients::{
    leave_toast, slot_refusal, Clients, Slots, SwitchAction, MAX_CONNECTIONS,
};
use couchmic::i18n::{Device, Lang, Texts};
use couchmic::tray::TrayCommand;

#[test]
fn at_most_four_connections() {
    let mut s = Slots::new();
    for _ in 0..MAX_CONNECTIONS {
        assert!(s.take());
    }
    assert!(!s.take());
    assert_eq!(slot_refusal(s.take()), Some((503, "too many connections")));
    s.free();
    assert!(s.take());
    assert!(!s.take());
    let mut empty = Slots::new();
    assert_eq!(slot_refusal(empty.take()), None);
    empty.free();
    empty.free();
    assert_eq!((0..9).filter(|_| empty.take()).count(), 4);
}

#[test]
fn first_client_switches_and_is_announced() {
    let texts = Texts::new(Lang::En);
    let mut c = Clients::new();
    let j = c.join(&texts, Device::IPhone, "CABLE Output", true, true);
    assert_eq!((j.clients, j.activate), (1, true));
    assert_eq!(
        j.toast.as_deref(),
        Some("iPhone connected. CABLE Output is now the default microphone.")
    );
    let j = c.join(&texts, Device::IPad, "CABLE Output", true, true);
    assert_eq!((j.clients, j.activate, j.toast), (2, false, None));
    assert_eq!(c.count(), 2);
    let l = c.leave();
    assert_eq!((l.clients, l.start_grace), (1, false));
    assert_eq!(c.on_grace_over(), SwitchAction::Nothing);
    let l = c.leave();
    assert_eq!((l.clients, l.start_grace), (0, true));
    assert_eq!(c.on_grace_over(), SwitchAction::Restore);
    assert_eq!(c.leave().clients, 0);
}

#[test]
fn without_switching_or_notifications() {
    let texts = Texts::new(Lang::De);
    let mut c = Clients::new();
    let j = c.join(&texts, Device::Android, "Mic", false, true);
    assert!(!j.activate);
    assert_eq!(j.toast.as_deref(), Some("Android-Gerät verbunden. Mikrofon: Mic."));
    c.leave();
    let j = c.join(&texts, Device::Android, "Mic", true, false);
    assert!(j.activate && j.toast.is_none());
    assert_eq!(leave_toast(&texts, Device::IPad, true, false), None);
    assert_eq!(
        leave_toast(&texts, Device::IPad, false, true).as_deref(),
        Some("iPad getrennt.")
    );
}

#[test]
fn tray_commands_act_on_the_microphone() {
    let texts = Texts::new(Lang::En);
    let mut c = Clients::new();
    assert_eq!(c.on_command(TrayCommand::SetSwitching(true)), SwitchAction::Nothing);
    assert_eq!(c.on_command(TrayCommand::SetSwitching(false)), SwitchAction::Restore);
    c.join(&texts, Device::Other, "Mic", false, false);
    assert_eq!(c.on_command(TrayCommand::SetSwitching(true)), SwitchAction::Activate);
    assert_eq!(c.on_command(TrayCommand::Quit), SwitchAction::Nothing);
}
