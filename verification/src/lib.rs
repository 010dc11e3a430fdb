//! Verified core of the Android front end of the Ruffle Flash player: the
//! translation of Android's full-buffer text input into incremental editing
//! actions, the key code mapping, and the context menu item encoding.

pub mod encoding;
pub mod text_input;
pub mod editor;
pub mod keycodes;
pub mod context_menu;
pub mod custom_event;
