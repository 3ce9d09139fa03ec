//! Work-session tracking for a watched project directory.
//!
//! A stream of file-change notifications is cut into sessions: a session
//! opens with the first change after a quiet period and closes either when
//! no change has been seen for the idle threshold or when the process is
//! asked to stop. Times are milliseconds since the Unix epoch.

pub mod text;
pub mod session_tracker;
pub mod state;
pub mod watcher;
pub mod timeline;
pub mod moment;
pub mod database;
pub mod history;
