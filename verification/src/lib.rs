//! Offline voice dictation: the verified core of the dictation engine.
use vstd::prelude::*;

pub mod lang;
pub mod text;
pub mod words;
pub mod streaming;
pub mod vad;
pub mod transcribe;
pub mod bench;
pub mod wav;
pub mod hotkey;
pub mod overlay;
pub mod models;
pub mod download;
pub mod inject;
pub mod sound;
pub mod tray;
pub mod userinput;
pub mod caret;
pub mod permission;
pub mod server;
pub mod config;
pub mod dictation;
pub mod hud;
pub mod mic;
pub mod control;
pub mod log;
pub mod autostart;

verus! {
}
