//! Klipo's clipboard-history core: capture, storage, paste flow and the
//! desktop-integration decisions around them.
pub mod desktop;
pub mod text;
pub mod startup;
pub mod digest;
pub mod clipboard;
pub mod self_write;
pub mod preview;
pub mod storage;
pub mod system_clipboard;
pub mod settings;
pub mod shortcuts;
pub mod commands;
pub mod input;
pub mod tray;
pub mod window;
pub mod single_instance;
pub mod paste;
pub mod logging;
