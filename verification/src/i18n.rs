//! User-facing texts on the PC (tray, toasts) in German and English. The iPad page has its own
//! table. Logs and CLI help stay English.

use vstd::prelude::*;
use crate::{number, text};

verus! {

/// A language of the PC-side texts.
#[derive(Debug, Clone, Copy, PartialEq, Eq, Structural)]
pub enum Lang {
    De,
    En,
}

impl Lang {
    /// German for any German locale, English otherwise: the primary language is in the low 10 bits
    /// of the Windows language id, and German is 7.
    pub fn from_langid(langid: u16) -> (r: Self)
        ensures
            r == (if langid % 1024 == 7 {
                Lang::De
            } else {
                Lang::En
            }),
    {
        assert(langid & 0x3ff == langid % 1024) by (bit_vector);
        if langid & 0x3ff == 0x07 {
            Lang::De
        } else {
            Lang::En
        }
    }
}

/// Kind of sending device, as the page reports it in "hello". Only these fixed values reach the
/// tray and the notifications, never text from the client.
#[derive(Debug, Clone, Copy, PartialEq, Eq, Structural)]
pub enum Device {
    IPhone,
    IPad,
    Android,
    Other,
}

impl Default for Device {
    fn default() -> (r: Self)
        ensures
            r == Device::Other,
    {
        Device::Other
    }
}

/// The device that a reported value stands for.
pub open spec fn device_of(value: Option<Seq<char>>) -> Device {
    match value {
        Some(v) => if v == "iphone"@ {
            Device::IPhone
        } else if v == "ipad"@ {
            Device::IPad
        } else if v == "android"@ {
            Device::Android
        } else {
            Device::Other
        },
        None => Device::Other,
    }
}

impl Device {
    /// The device that a reported value stands for; anything unknown is another device.
    pub fn from_hello(value: Option<&str>) -> (r: Self)
        ensures
            r == device_of(
                match value {
                    Some(v) => Some(v@),
                    None => None,
                },
            ),
    {
        match value {
            Some(v) => if text::same(v, "iphone") {
                Device::IPhone
            } else if text::same(v, "ipad") {
                Device::IPad
            } else if text::same(v, "android") {
                Device::Android
            } else {
                Device::Other
            },
            None => Device::Other,
        }
    }
}

/// The German or the English text.
pub open spec fn in_lang(lang: Lang, de: Seq<char>, en: Seq<char>) -> Seq<char> {
    match lang {
        Lang::De => de,
        Lang::En => en,
    }
}

/// What is shown while nobody is connected.
pub open spec fn waiting_text(lang: Lang) -> Seq<char> {
    in_lang(lang, "CouchMic: wartet auf Verbindung"@, "CouchMic: waiting for a connection"@)
}

/// Device name at the start of a sentence.
pub open spec fn device_name(lang: Lang, d: Device) -> Seq<char> {
    match d {
        Device::IPhone => "iPhone"@,
        Device::IPad => "iPad"@,
        Device::Android => in_lang(lang, "Android-Gerät"@, "Android device"@),
        Device::Other => in_lang(lang, "Gerät"@, "Device"@),
    }
}

/// "iPhone verbunden", or "2 Geräte verbunden" with several senders.
pub open spec fn connected_text(lang: Lang, d: Device, clients: u32) -> Seq<char> {
    if clients <= 1 {
        device_name(lang, d) + in_lang(lang, " verbunden"@, " connected"@)
    } else {
        number::decimal(clients as nat) + in_lang(
            lang,
            " Geräte verbunden"@,
            " devices connected"@,
        )
    }
}

/// Status line while connected.
pub open spec fn status_text(lang: Lang, d: Device, path: Seq<char>, clients: u32) -> Seq<char> {
    "CouchMic: "@ + connected_text(lang, d, clients) + " ("@ + path + ")"@
}

/// Tooltip while waiting.
pub open spec fn idle_tooltip(lang: Lang, device: Seq<char>, switching: bool) -> Seq<char> {
    waiting_text(lang) + in_lang(lang, "\nAusgabe: "@, "\nOutput: "@) + device + in_lang(
        lang,
        "\nMikrofon-Umschaltung: "@,
        "\nMicrophone switching: "@,
    ) + (if switching {
        in_lang(lang, "an"@, "on"@)
    } else {
        in_lang(lang, "aus"@, "off"@)
    })
}

/// Tooltip while connected; the buffer, its target and the loss are already written as numbers.
pub open spec fn connected_tooltip(
    lang: Lang,
    head: Seq<char>,
    buffered: Seq<char>,
    target: Seq<char>,
    loss: Seq<char>,
    underruns: u64,
) -> Seq<char> {
    head + in_lang(lang, "\nPuffer "@, "\nBuffer "@) + buffered + in_lang(
        lang,
        " ms (Ziel "@,
        " ms (target "@,
    ) + target + in_lang(lang, "), Verlust "@, "), loss "@) + loss + in_lang(
        lang,
        " %, Underruns "@,
        " %, underruns "@,
    ) + number::decimal(underruns as nat)
}

/// Notification on connect.
pub open spec fn connected_toast(lang: Lang, d: Device, mic: Seq<char>, switched: bool) -> Seq<
    char,
> {
    if switched {
        connected_text(lang, d, 1) + ". "@ + mic + in_lang(
            lang,
            " ist jetzt das Standard-Mikrofon."@,
            " is now the default microphone."@,
        )
    } else {
        connected_text(lang, d, 1) + in_lang(lang, ". Mikrofon: "@, ". Microphone: "@) + mic + "."@
    }
}

/// Notification on disconnect.
pub open spec fn disconnected_toast(lang: Lang, d: Device, restored: bool) -> Seq<char> {
    device_name(lang, d) + (if restored {
        in_lang(
            lang,
            " getrennt. Das vorige Mikrofon ist wieder Standard."@,
            " disconnected. The previous microphone is the default again."@,
        )
    } else {
        in_lang(lang, " getrennt."@, " disconnected."@)
    })
}

/// All PC-side strings.
#[derive(Debug, Clone, Copy)]
pub struct Texts {
    pub lang: Lang,
}

impl Texts {
    /// The texts in a language.
    pub fn new(lang: Lang) -> (r: Self)
        ensures
            r.lang == lang,
    {
        Texts { lang }
    }

    fn pick(&self, de: &'static str, en: &'static str) -> (r: &'static str)
        ensures
            r@ == in_lang(self.lang, de@, en@),
    {
        match self.lang {
            Lang::De => de,
            Lang::En => en,
        }
    }

    /// What is shown while nobody is connected.
    pub fn waiting(&self) -> (r: &'static str)
        ensures
            r@ == waiting_text(self.lang),
    {
        self.pick("CouchMic: wartet auf Verbindung", "CouchMic: waiting for a connection")
    }

    /// Device name at the start of a sentence.
    fn device(&self, d: Device) -> (r: &'static str)
        ensures
            r@ == device_name(self.lang, d),
    {
        match d {
            Device::IPhone => "iPhone",
            Device::IPad => "iPad",
            Device::Android => self.pick("Android-Gerät", "Android device"),
            Device::Other => self.pick("Gerät", "Device"),
        }
    }

    /// "iPhone verbunden", or "2 Geräte verbunden" with several senders.
    fn connected(&self, d: Device, clients: u32) -> (r: String)
        ensures
            r@ == connected_text(self.lang, d, clients),
    {
        if clients <= 1 {
            let mut s = self.device(d).to_owned();
            s.append(self.pick(" verbunden", " connected"));
            s
        } else {
            let mut s = number::to_decimal(clients as u64);
            s.append(self.pick(" Geräte verbunden", " devices connected"));
            s
        }
    }

    /// Menu item: switch the default microphone automatically.
    pub fn menu_auto_switch(&self) -> (r: &'static str)
        ensures
            r@ == in_lang(
                self.lang,
                "Standard-Mikrofon automatisch umschalten"@,
                "Switch default microphone automatically"@,
            ),
    {
        self.pick(
            "Standard-Mikrofon automatisch umschalten",
            "Switch default microphone automatically",
        )
    }

    /// Menu item: open the web page.
    pub fn menu_open_ui(&self) -> (r: &'static str)
        ensures
            r@ == in_lang(self.lang, "Web-Oberfläche öffnen"@, "Open web page"@),
    {
        self.pick("Web-Oberfläche öffnen", "Open web page")
    }

    /// Menu item: open the log folder.
    pub fn menu_open_logs(&self) -> (r: &'static str)
        ensures
            r@ == in_lang(self.lang, "Log-Ordner öffnen"@, "Open log folder"@),
    {
        self.pick("Log-Ordner öffnen", "Open log folder")
    }

    /// Menu item: quit.
    pub fn menu_quit(&self) -> (r: &'static str)
        ensures
            r@ == in_lang(self.lang, "Beenden"@, "Quit"@),
    {
        self.pick("Beenden", "Quit")
    }

    /// Status line while connected over `path`.
    pub fn status_connected(&self, device: Device, path: &str, clients: u32) -> (r: String)
        ensures
            r@ == status_text(self.lang, device, path@, clients),
    {
        let mut s = "CouchMic: ".to_owned();
        s.append(&self.connected(device, clients));
        s.append(" (");
        s.append(path);
        s.append(")");
        s
    }

    /// Tooltip while waiting: output device and whether the microphone is switched.
    pub fn tooltip_idle(&self, device: &str, switching: bool) -> (r: String)
        ensures
            r@ == idle_tooltip(self.lang, device@, switching),
    {
        let mut s = self.waiting().to_owned();
        s.append(self.pick("\nAusgabe: ", "\nOutput: "));
        s.append(device);
        s.append(self.pick("\nMikrofon-Umschaltung: ", "\nMicrophone switching: "));
        if switching {
            s.append(self.pick("an", "on"));
        } else {
            s.append(self.pick("aus", "off"));
        }
        s
    }

    /// Tooltip while connected. `buffered` and `target` are milliseconds without decimals, `loss` is
    /// a percentage with one, all three already written as numbers.
    pub fn tooltip_connected(
        &self,
        head: &str,
        buffered: &str,
        target: &str,
        loss: &str,
        underruns: u64,
    ) -> (r: String)
        ensures
            r@ == connected_tooltip(self.lang, head@, buffered@, target@, loss@, underruns),
    {
        let mut s = head.to_owned();
        s.append(self.pick("\nPuffer ", "\nBuffer "));
        s.append(buffered);
        s.append(self.pick(" ms (Ziel ", " ms (target "));
        s.append(target);
        s.append(self.pick("), Verlust ", "), loss "));
        s.append(loss);
        s.append(self.pick(" %, Underruns ", " %, underruns "));
        number::push_decimal(&mut s, underruns);
        s
    }

    /// Notification on connect.
    pub fn toast_connected(&self, device: Device, mic: &str, switched: bool) -> (r: String)
        ensures
            r@ == connected_toast(self.lang, device, mic@, switched),
    {
        let mut s = self.connected(device, 1);
        if switched {
            s.append(". ");
            s.append(mic);
            s.append(
                self.pick(" ist jetzt das Standard-Mikrofon.", " is now the default microphone."),
            );
        } else {
            s.append(self.pick(". Mikrofon: ", ". Microphone: "));
            s.append(mic);
            s.append(".");
        }
        s
    }

    /// Notification on disconnect.
    pub fn toast_disconnected(&self, device: Device, restored: bool) -> (r: String)
        ensures
            r@ == disconnected_toast(self.lang, device, restored),
    {
        let mut s = self.device(device).to_owned();
        if restored {
            s.append(
                self.pick(
                    " getrennt. Das vorige Mikrofon ist wieder Standard.",
                    " disconnected. The previous microphone is the default again.",
                ),
            );
        } else {
            s.append(self.pick(" getrennt.", " disconnected."));
        }
        s
    }
}

/// Text from a client never reaches the texts: whatever a device reports, it is called by one of the
/// four fixed names.
pub proof fn only_fixed_device_names(lang: Lang, value: Option<Seq<char>>)
    ensures
        device_name(lang, device_of(value)) == "iPhone"@ || device_name(lang, device_of(value))
            == "iPad"@ || device_name(lang, device_of(value)) == in_lang(
            lang,
            "Android-Gerät"@,
            "Android device"@,
        ) || device_name(lang, device_of(value)) == in_lang(lang, "Gerät"@, "Device"@),
{
}

/// What a device reports itself as, and what it is called.
pub proof fn devices_have_their_names(lang: Lang, value: Seq<char>)
    ensures
        device_of(Some("iphone"@)) == Device::IPhone,
        device_of(Some("ipad"@)) == Device::IPad,
        device_of(Some("android"@)) == Device::Android,
        device_of(None) == Device::Other,
        value != "iphone"@ && value != "ipad"@ && value != "android"@ ==> device_of(Some(value))
            == Device::Other,
        device_name(lang, Device::IPhone) == "iPhone"@,
        device_name(lang, Device::IPad) == "iPad"@,
        device_name(Lang::De, Device::Android) == "Android-Gerät"@,
        device_name(Lang::En, Device::Android) == "Android device"@,
        device_name(Lang::De, Device::Other) == "Gerät"@,
        device_name(Lang::En, Device::Other) == "Device"@,
{
    reveal_strlit("iphone");
    reveal_strlit("ipad");
    reveal_strlit("android");
    assert("iphone"@.len() == 6 && "ipad"@.len() == 4 && "android"@.len() == 7);
}

/// One sender is named, several are counted.
pub proof fn senders_are_named_or_counted(d: Device, clients: u32)
    ensures
        clients <= 1 ==> connected_text(Lang::De, d, clients) == device_name(Lang::De, d)
            + " verbunden"@,
        clients <= 1 ==> connected_text(Lang::En, d, clients) == device_name(Lang::En, d)
            + " connected"@,
        clients >= 2 ==> connected_text(Lang::De, d, clients) == number::decimal(clients as nat)
            + " Geräte verbunden"@,
        clients >= 2 ==> connected_text(Lang::En, d, clients) == number::decimal(clients as nat)
            + " devices connected"@,
        waiting_text(Lang::De) == "CouchMic: wartet auf Verbindung"@,
        waiting_text(Lang::En) == "CouchMic: waiting for a connection"@,
{
}

/// The status line names who is connected and, in brackets, the audio path.
pub proof fn the_status_line_names_sender_and_path(
    lang: Lang,
    d: Device,
    path: Seq<char>,
    clients: u32,
)
    ensures
        status_text(lang, d, path, clients) == "CouchMic: "@ + connected_text(lang, d, clients)
            + " ("@ + path + ")"@,
{
}

/// The notification on connecting names the device and the microphone, and says that it is the default
/// now exactly if it was switched.
pub proof fn connecting_names_the_microphone(d: Device, mic: Seq<char>)
    ensures
        connected_toast(Lang::De, d, mic, true) == device_name(Lang::De, d) + " verbunden"@ + ". "@
            + mic + " ist jetzt das Standard-Mikrofon."@,
        connected_toast(Lang::En, d, mic, true) == device_name(Lang::En, d) + " connected"@ + ". "@
            + mic + " is now the default microphone."@,
        connected_toast(Lang::De, d, mic, false) == device_name(Lang::De, d) + " verbunden"@
            + ". Mikrofon: "@ + mic + "."@,
        connected_toast(Lang::En, d, mic, false) == device_name(Lang::En, d) + " connected"@
            + ". Microphone: "@ + mic + "."@,
{
}

/// The notification on disconnecting names the device, and says that the previous microphone is back
/// exactly if it was restored.
pub proof fn disconnecting_says_what_was_restored(d: Device)
    ensures
        disconnected_toast(Lang::De, d, true) == device_name(Lang::De, d)
            + " getrennt. Das vorige Mikrofon ist wieder Standard."@,
        disconnected_toast(Lang::En, d, true) == device_name(Lang::En, d)
            + " disconnected. The previous microphone is the default again."@,
        disconnected_toast(Lang::De, d, false) == device_name(Lang::De, d) + " getrennt."@,
        disconnected_toast(Lang::En, d, false) == device_name(Lang::En, d) + " disconnected."@,
{
}

/// The tooltip while waiting shows the output device and whether the microphone is switched.
pub proof fn the_idle_tooltip_shows_the_output(device: Seq<char>, switching: bool)
    ensures
        idle_tooltip(Lang::De, device, switching) == "CouchMic: wartet auf Verbindung"@
            + "\nAusgabe: "@ + device + "\nMikrofon-Umschaltung: "@ + if switching {
            "an"@
        } else {
            "aus"@
        },
        idle_tooltip(Lang::En, device, switching) == "CouchMic: waiting for a connection"@
            + "\nOutput: "@ + device + "\nMicrophone switching: "@ + if switching {
            "on"@
        } else {
            "off"@
        },
{
}

/// The tooltip while connected shows the head, the buffer, its target, the loss and the underruns, each
/// in its place.
pub proof fn the_tooltip_shows_the_numbers(
    head: Seq<char>,
    buffered: Seq<char>,
    target: Seq<char>,
    loss: Seq<char>,
    underruns: u64,
)
    ensures
        connected_tooltip(Lang::De, head, buffered, target, loss, underruns) == head
            + "\nPuffer "@ + buffered + " ms (Ziel "@ + target + "), Verlust "@ + loss
            + " %, Underruns "@ + number::decimal(underruns as nat),
        connected_tooltip(Lang::En, head, buffered, target, loss, underruns) == head
            + "\nBuffer "@ + buffered + " ms (target "@ + target + "), loss "@ + loss
            + " %, underruns "@ + number::decimal(underruns as nat),
{
}

} // verus!
