//! Screen recording and instant replay.
pub mod attempts;
pub mod command;
pub mod download;
pub mod files;
pub mod history;
pub mod live;
pub mod params;
pub mod probe;
pub mod replay;
pub mod session;
