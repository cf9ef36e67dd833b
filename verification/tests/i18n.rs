use couchmic::i18n::{Device, Lang, Texts};

#[test]
fn german_locales_map_to_german() {
    // de-DE 0x0407, de-AT 0x0C07, de-CH 0x0807
    for id in [0x0407u16, 0x0C07, 0x0807] {
        assert_eq!(Lang::from_langid(id), Lang::De, "{id:#06x}");
    }
    // en-US 0x0409, fr-FR 0x040C
    for id in [0x0409u16, 0x040C] {
        assert_eq!(Lang::from_langid(id), Lang::En, "{id:#06x}");
    }
}

#[test]
fn texts_fill_in_values() {
    let de = Texts::new(Lang::De);
    let en = Texts::new(Lang::En);
    assert_eq!(
        de.toast_connected(Device::IPhone, "CABLE Output", true),
        "iPhone verbunden. CABLE Output ist jetzt das Standard-Mikrofon."
    );
    assert_eq!(
        en.toast_connected(Device::IPad, "CABLE Output", true),
        "iPad connected. CABLE Output is now the default microphone."
    );
    assert_eq!(
        de.toast_disconnected(Device::Android, false),
        "Android-Gerät getrennt."
    );
    assert_eq!(
        de.status_connected(Device::IPad, "PCM", 1),
        "CouchMic: iPad verbunden (PCM)"
    );
    assert_eq!(
        en.status_connected(Device::IPhone, "PCM", 2),
        "CouchMic: 2 devices connected (PCM)"
    );
}

#[test]
fn only_known_device_values_are_used() {
    assert_eq!(Device::from_hello(Some("iphone")), Device::IPhone);
    assert_eq!(Device::from_hello(Some("ipad")), Device::IPad);
    assert_eq!(Device::from_hello(Some("android")), Device::Android);
    for v in [None, Some(""), Some("iPhone"), Some("evil\nline"), Some("other")] {
        assert_eq!(Device::from_hello(v), Device::Other, "{v:?}");
    }
    let en = Texts::new(Lang::En);
    assert!(en
        .toast_connected(Device::Other, "CABLE Output", false)
        .starts_with("Device connected."));
    assert_eq!(Device::default(), Device::Other);
}

#[test]
fn both_languages_have_all_texts() {
    let de = Texts::new(Lang::De);
    let en = Texts::new(Lang::En);
    assert_eq!(de.waiting(), "CouchMic: wartet auf Verbindung");
    assert_eq!(en.waiting(), "CouchMic: waiting for a connection");
    assert_eq!(de.menu_auto_switch(), "Standard-Mikrofon automatisch umschalten");
    assert_eq!(en.menu_auto_switch(), "Switch default microphone automatically");
    assert_eq!(de.menu_open_ui(), "Web-Oberfläche öffnen");
    assert_eq!(en.menu_open_ui(), "Open web page");
    assert_eq!(de.menu_open_logs(), "Log-Ordner öffnen");
    assert_eq!(en.menu_open_logs(), "Open log folder");
    assert_eq!(de.menu_quit(), "Beenden");
    assert_eq!(en.menu_quit(), "Quit");
    assert_eq!(
        de.tooltip_idle("CABLE Input", true),
        "CouchMic: wartet auf Verbindung\nAusgabe: CABLE Input\nMikrofon-Umschaltung: an"
    );
    assert_eq!(
        en.tooltip_idle("CABLE Input", false),
        "CouchMic: waiting for a connection\nOutput: CABLE Input\nMicrophone switching: off"
    );
    assert_eq!(
        de.tooltip_connected("Kopf", "41", "40", "0.5", 3),
        "Kopf\nPuffer 41 ms (Ziel 40), Verlust 0.5 %, Underruns 3"
    );
    assert_eq!(
        en.tooltip_connected("Head", "41", "40", "0.5", 0),
        "Head\nBuffer 41 ms (target 40), loss 0.5 %, underruns 0"
    );
    assert_eq!(
        en.toast_disconnected(Device::IPad, true),
        "iPad disconnected. The previous microphone is the default again."
    );
    assert_eq!(
        de.toast_connected(Device::Other, "Mic", false),
        "Gerät verbunden. Mikrofon: Mic."
    );
    assert_eq!(de.status_connected(Device::Other, "PCM", 3), "CouchMic: 3 Geräte verbunden (PCM)");
    assert_eq!(
        en.status_connected(Device::Android, "WebRTC/Opus", 0),
        "CouchMic: Android device connected (WebRTC/Opus)"
    );
}
