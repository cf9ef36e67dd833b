use couchmic::i18n::{Device, Lang, Texts};
use couchmic::tray::{
    on_click, on_menu, to_wide, toast_registration, wide_bytes, Dot, MenuEntry, TrayAction,
    TrayCommand, TrayHandle, TrayState, Update, TOAST_APP_ID, TOAST_NAME,
};

fn connected(clients: u32, trouble: bool) -> TrayState {
    TrayState::Connected { device: Device::IPad, path: "PCM".into(), clients, trouble }
}

#[test]
fn the_tray_is_only_told_of_changes() {
    let mut t = TrayHandle::new();
    match t.set_state(TrayState::Idle, "a".into()) {
        Some(Update::State(s, tip)) => assert_eq!((s, tip.as_str()), (TrayState::Idle, "a")),
        other => panic!("{other:?}"),
    }
    assert!(t.set_state(TrayState::Idle, "a".into()).is_none());
    assert!(t.set_state(TrayState::Idle, "b".into()).is_some());
    assert!(t.set_state(connected(1, false), "b".into()).is_some());
    assert!(t.set_state(connected(1, false), "b".into()).is_none());
    assert!(t.set_state(connected(1, true), "b".into()).is_some());
    assert!(t.set_state(connected(2, true), "b".into()).is_some());
    assert!(matches!(t.shutdown(), Update::Quit));
}

#[test]
fn dot_and_status_follow_the_state() {
    let texts = Texts::new(Lang::En);
    assert_eq!(TrayState::Idle.dot(), Dot::Grey);
    assert_eq!(connected(1, false).dot(), Dot::Green);
    assert_eq!(connected(1, true).dot(), Dot::Yellow);
    assert_eq!(Dot::Grey.rgb(), (0x94, 0xa0, 0xad));
    assert_eq!(Dot::Green.rgb(), (0x34, 0xc4, 0xa4));
    assert_eq!(Dot::Yellow.rgb(), (0xe0, 0xa6, 0x3a));
    assert_eq!(TrayState::Idle.status(&texts), "CouchMic: waiting for a connection");
    assert_eq!(connected(1, true).status(&texts), "CouchMic: iPad connected (PCM)");
    assert_eq!(connected(3, true).clone(), connected(3, true));
}

#[test]
fn menu_and_clicks() {
    assert_eq!(
        on_menu(MenuEntry::Switching, true),
        TrayAction::Command(TrayCommand::SetSwitching(true))
    );
    assert_eq!(
        on_menu(MenuEntry::Switching, false),
        TrayAction::Command(TrayCommand::SetSwitching(false))
    );
    assert_eq!(on_menu(MenuEntry::OpenUi, true), TrayAction::OpenUi);
    assert_eq!(on_menu(MenuEntry::OpenLogs, true), TrayAction::OpenLogs);
    assert_eq!(on_menu(MenuEntry::Quit, true), TrayAction::Command(TrayCommand::Quit));
    assert_eq!(on_menu(MenuEntry::Other, true), TrayAction::Nothing);
    assert_eq!(on_click(true, true), TrayAction::OpenUi);
    assert_eq!(on_click(true, false), TrayAction::Nothing);
    assert_eq!(on_click(false, true), TrayAction::Nothing);
}

#[test]
fn wide_texts_are_utf16_with_a_final_zero() {
    for s in ["", "CouchMic", "Gerät", "\u{1f3a4} mic", "\u{ffff}\u{10000}\u{10ffff}"] {
        let expected: Vec<u16> = s.encode_utf16().chain(std::iter::once(0)).collect();
        assert_eq!(to_wide(s), expected);
        let bytes: Vec<u8> = expected.iter().flat_map(|u| u.to_le_bytes()).collect();
        assert_eq!(wide_bytes(&expected), bytes);
    }
}

#[test]
fn toasts_are_registered_under_the_own_name() {
    let r = toast_registration("C:\\icon.png");
    assert_eq!((TOAST_APP_ID, TOAST_NAME), ("GlassMic", "Glass Mic"));
    assert_eq!(r.subkey, to_wide(&format!(r"Software\Classes\AppUserModelId\{TOAST_APP_ID}")));
    assert_eq!(r.values.len(), 2);
    assert_eq!(r.values[0].0, to_wide("DisplayName"));
    assert_eq!(r.values[0].1, wide_bytes(&to_wide("Glass Mic")));
    assert_eq!(r.values[1].0, to_wide("IconUri"));
    assert_eq!(r.values[1].1, wide_bytes(&to_wide("C:\\icon.png")));
}
