//! `purse`: a floating tray that holds the files (and transient snippets)
//! in play, previews them, and dispatches the selected ones.
pub mod state;
pub mod ipc;
pub mod preview;
pub mod thumbnailer;
pub mod dispatch;
