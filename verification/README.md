# CouchMic

Use your iPad or iPhone as a microphone for your Windows PC. The page in the browser sends the
microphone over WebRTC (or, as a fallback, as PCM over a WebSocket) through a Tailscale network;
CouchMic plays it into VB-CABLE, and every Windows app can use "CABLE Output" as its microphone.

## Layout

- `src/` is the library: the rules of the program, verified with Verus. Every function states what it
  returns and changes; what holds of the library as a whole stands in public proof functions at the
  end of each module.
- `app/` is the program around it: the HTTP server, the sound device, the Opus decoder, the
  resampler, the tray icon and the Windows API. It hands the library plain values and does what it is
  told. It reads the page and its icons from the folder `web` beside the program.
- `tests/` runs the library.

## What is trusted

The library calls `serde_json` for JSON values and `http` (through `axum`) for header maps, each
behind a small wrapper whose contract says what the call gives back; likewise the few functions of
the standard library that Verus has no specification for. They stand in `src/json.rs`,
`src/access.rs` and `src/text.rs`.

Fractions never enter the library as such: milliseconds are ordered by the bit pattern of their
`f64`, samples are moved by that of their `f32`, and the arithmetic on both stays in `app/`.
