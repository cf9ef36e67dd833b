[package]
name = "couchmic"
version = "0.1.0"
edition = "2021"
publish = false

[dependencies]
async-trait = "0.1"
axum = { version = "0.8", default-features = false, features = ["http1", "json", "tokio", "ws"] }
clap = { version = "4", default-features = false, features = ["derive", "error-context", "help", "std", "usage"] }
cpal = "0.18"
opus = "0.4"
rtc = "0.21"
rubato = "*"
serde_json = "1"
tauri-winrt-notification = "0.8"
tokio = { version = "1", features = ["macros", "net", "rt-multi-thread", "signal", "sync", "time"] }
tracing = "0.1"
tracing-subscriber = { version = "0.3", default-features = false, features = ["ansi", "env-filter", "fmt", "std"] }
tray-icon = { version = "0.26", default-features = false }
webrtc = "0.21"
windows = { version = "0.62", features = ["Win32_Foundation", "Win32_Globalization", "Win32_Media_Audio", "Win32_Storage_FileSystem", "Win32_System_Com", "Win32_System_Com_StructuredStorage", "Win32_System_Console", "Win32_System_Registry", "Win32_System_SystemInformation", "Win32_System_Threading", "Win32_UI_WindowsAndMessaging"] }
