//! CouchMic: an iPad or iPhone as the microphone of a Windows PC.
//!
//! A browser page sends audio to the PC, as an Opus track over WebRTC or as PCM blocks over a
//! WebSocket. A jitter buffer plays it into a virtual cable, whose other end becomes the default
//! microphone while somebody is connected. This library holds the rules: who may connect, what is
//! played, when the microphone is switched, what is shown and logged. Sockets, sound devices, the
//! Opus decoder, the resampler and the Windows API are driven by the program around it, which hands
//! in plain values (and points in time, in nanoseconds) and does what it is told.
//!
//! - [`access`]: which requests reach the server at all.
//! - [`connection`], [`control`], [`pcm`]: the messages of one WebSocket connection.
//! - [`webrtc_rx`]: the packets of one WebRTC audio track.
//! - [`audio`]: the jitter buffer, and which connection may play into it.
//! - [`clients`], [`micswitch`]: who is connected, and what that does to the default microphone.
//! - [`tray`], [`status`], [`i18n`]: what the user sees.
//! - [`logfile`], [`startup`], [`tailscale`]: the log file, the start, the PC's own identity.
//! - [`json`], [`limit`], [`number`], [`ordered`], [`text`]: what the others are built on.

pub mod access;
pub mod audio;
pub mod clients;
pub mod connection;
pub mod control;
pub mod i18n;
pub mod json;
pub mod limit;
pub mod logfile;
pub mod micswitch;
pub mod number;
pub mod ordered;
pub mod pcm;
pub mod startup;
pub mod status;
pub mod tailscale;
pub mod text;
pub mod tray;
pub mod webrtc_rx;
