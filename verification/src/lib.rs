//! Key-Speed Notepad Logger: a notepad that logs every key press with the
//! interval since the previous one, in milliseconds, keeps per-session
//! statistics, starts a new session after a pause of 1.5 s, and exports the
//! log as CSV. This crate holds the logger's state and rules; a window shell
//! reads the clocks and input events and draws what it holds.
pub mod clock;
pub mod display;
pub mod entry;
pub mod export;
pub mod keys;
pub mod logger;
pub mod platform;
pub mod text;
