use couchmic::micswitch::{
    find_capture, other_capture, parse_state, pick_capture, render_state, role_of, Activation,
    Capture, Endpoint, MicSwitch, Recovery, Restore, RestoreAction,
};

fn ep(id: &str, name: &str) -> Endpoint {
    Endpoint { id: id.into(), name: name.into() }
}

fn capture(id: &str, name: &str) -> Capture {
    Capture { id: Some(id.into()), name: Some(name.into()) }
}

fn devices() -> Vec<Capture> {
    vec![
        Capture { id: None, name: Some("CABLE Output without id".into()) },
        Capture { id: Some("?".into()), name: None },
        capture("usb", "USB Mic"),
        capture("cable", "CABLE Output (VB-Audio Virtual Cable)"),
    ]
}

/// A switch that has replaced these defaults.
fn switched(defaults: &[Option<Endpoint>; 3]) -> (MicSwitch, String) {
    let mut m = MicSwitch::new("cable output");
    match m.activate(&devices(), defaults) {
        Activation::Switch(plan) => {
            let state = plan.state.clone();
            let set = m.on_saved(plan, true);
            let cable = |i: i32| (i, "cable".to_string());
            assert_eq!(set, [cable(0), cable(1), cable(2)]);
            assert!(m.is_active());
            (m, state)
        }
        other => panic!("{other:?}"),
    }
}

#[test]
fn state_file_roundtrip_with_target() {
    let target = Endpoint {
        id: "{0.0.1}.{cable}".into(),
        name: "CABLE Output (VB-Audio Virtual Cable)".into(),
    };
    let prev = vec![
        (
            0,
            Endpoint { id: "{0.0.1}.{usb}".into(), name: "Mic\twith tab".into() },
        ),
        (
            2,
            Endpoint { id: "{0.0.1}.{bt}".into(), name: "Headset".into() },
        ),
    ];
    let body = render_state(&target, &prev);
    let (t, v) = parse_state(&body);
    assert_eq!(t.unwrap().id, target.id);
    assert_eq!(v.len(), 2);
    assert_eq!(v[0].1.name, "Mic\twith tab", "tabs in names survive");
    assert_eq!(v[1].0, 2);
}

#[test]
fn old_state_files_without_target_still_load() {
    let (t, v) = parse_state("0\t{a}\tMic\n1\t{a}\tMic");
    assert!(t.is_none());
    assert_eq!(v.len(), 2);
}

#[test]
fn state_files_survive_other_line_ends_and_garbage() {
    let (t, v) = parse_state("T\tid\tname\r\n0\ta\tA\r\nnonsense\nx\ty\tz\n-1\tb\tB");
    assert_eq!(t.unwrap().name, "name");
    assert_eq!(v.len(), 2);
    assert_eq!((v[0].0, v[0].1.name.as_str()), (0, "A"));
    assert_eq!((v[1].0, v[1].1.id.as_str()), (-1, "b"));
    let (t, v) = parse_state("");
    assert!(t.is_none() && v.is_empty());
}

#[test]
fn target_is_found_by_part_of_its_name() {
    let d = devices();
    assert_eq!(find_capture(&d, "cable OUTPUT").unwrap().id, "cable");
    assert_eq!(find_capture(&d, "usb").unwrap().name, "USB Mic");
    assert!(find_capture(&d, "Bluetooth").is_none());
    assert_eq!(find_capture(&vec![capture("g", "GROSSES MIKROFÖN")], "mikrofön").unwrap().id, "g");
    let lowered = vec![None, None, Some("usb mic".to_string()), Some("cable".to_string())];
    assert_eq!(pick_capture(&d, &lowered, "cab").unwrap().id, "cable");
    assert_eq!(other_capture(&d, "?").unwrap().id, "usb");
    assert_eq!(other_capture(&d, "x").unwrap().id, "?");
    assert!(other_capture(&vec![capture("a", "A")], "a").is_none());
}

#[test]
fn roles_outside_the_range_are_the_console() {
    assert_eq!((role_of(0), role_of(1), role_of(2)), (0, 1, 2));
    assert_eq!((role_of(3), role_of(-1)), (0, 0));
}

#[test]
fn switch_remembers_and_gives_back() {
    let defaults = [Some(ep("usb", "USB Mic")), Some(ep("cable", "CABLE")), Some(ep("bt", "BT"))];
    let (mut m, state) = switched(&defaults);
    assert!(matches!(m.activate(&devices(), &defaults), Activation::Unchanged));
    let (t, prev) = parse_state(&state);
    assert_eq!(t.unwrap().id, "cable");
    assert_eq!(prev.len(), 2);
    let mut run = match m.restore(&Some(ep("cable", "CABLE"))) {
        Restore::Run(run) => run,
        other => panic!("{other:?}"),
    };
    assert!(!m.is_active());
    let set = |a: RestoreAction| match a {
        RestoreAction::MakeDefault { id, role } => (id, role),
        other => panic!("{other:?}"),
    };
    assert_eq!(set(run.start()), ("usb".to_string(), 0));
    assert_eq!(set(run.step(true, &devices())), ("bt".to_string(), 2));
    // The headset is gone: another microphone than the target takes its place.
    assert_eq!(set(run.step(false, &devices())), ("?".to_string(), 2));
    assert!(matches!(run.step(true, &devices()), RestoreAction::Done { remove_file: true }));
    assert!(matches!(m.restore(&None), Restore::Nothing));
}

#[test]
fn failed_restore_keeps_the_state_file() {
    let defaults = [Some(ep("usb", "USB Mic")), None, None];
    let (mut m, _) = switched(&defaults);
    let mut run = match m.restore(&None) {
        Restore::Run(run) => run,
        other => panic!("{other:?}"),
    };
    assert!(matches!(run.start(), RestoreAction::MakeDefault { role: 0, .. }));
    assert!(matches!(
        run.step(false, &Vec::new()),
        RestoreAction::Done { remove_file: false }
    ));
}

#[test]
fn another_choice_of_the_user_stays() {
    let (mut m, _) = switched(&[Some(ep("usb", "USB Mic")), None, None]);
    assert!(matches!(m.restore(&Some(ep("webcam", "Webcam"))), Restore::KeepChoice));
}

#[test]
fn nothing_is_switched_without_target_or_state_file() {
    let mut m = MicSwitch::new("nowhere");
    let defaults = [Some(ep("usb", "USB Mic")), None, None];
    assert!(matches!(m.activate(&devices(), &defaults), Activation::TargetNotFound));
    let mut m = MicSwitch::new("CABLE Output");
    match m.activate(&devices(), &defaults) {
        Activation::Switch(plan) => assert!(m.on_saved(plan, false).is_empty()),
        other => panic!("{other:?}"),
    }
    assert!(!m.is_active());
    let already = [Some(ep("cable", "CABLE")), None, Some(ep("cable", "CABLE"))];
    assert!(matches!(m.activate(&devices(), &already), Activation::AlreadyDefault));
    assert!(m.is_active());
    assert!(matches!(m.restore(&None), Restore::Nothing));
}

#[test]
fn a_crashed_run_is_recovered() {
    let (_, state) = switched(&[Some(ep("usb", "USB Mic")), None, None]);
    let mut m = MicSwitch::new("CABLE Output");
    assert_eq!(m.recover(&None, &devices(), &None), Recovery::Nothing);
    let other = Some(ep("usb", "USB Mic"));
    assert_eq!(
        m.recover(&Some(state.clone()), &devices(), &other),
        Recovery::RemoveFile,
        "the target is no longer the default"
    );
    let current = Some(ep("cable", "CABLE"));
    assert_eq!(m.recover(&Some(state), &devices(), &current), Recovery::Restore);
    assert!(m.is_active());
    match m.restore(&current) {
        Restore::Run(run) => {
            assert!(matches!(run.start(), RestoreAction::MakeDefault { role: 0, .. }))
        }
        other => panic!("{other:?}"),
    }
    // An old file without target goes by the filter.
    let mut old = MicSwitch::new("CABLE Output");
    let body = Some("0\tusb\tUSB Mic".to_string());
    assert_eq!(old.recover(&body, &devices(), &current), Recovery::Restore);
}
