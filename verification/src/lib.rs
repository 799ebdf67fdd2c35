//! Push-to-talk dictation: the transcription lifecycle, keyboard shortcuts and
//! the commands that change settings.
//!
//! Nothing here waits, locks, stores or registers. A function takes the state it
//! decides on and returns the effects that its caller has to perform.

pub mod binding_change;
pub mod commands;
pub mod coordinator;
pub mod effect;
pub mod hands_free;
pub mod hotkey;
pub mod implementation_change;
pub mod lifecycle;
pub mod lifecycle_laws;
pub mod lifecycle_rules;
pub mod outside;
pub mod post_process;
pub mod ptt;
pub mod settings;
pub mod shortcut;
pub mod stage;
pub mod string_map;
pub mod text;
