//! Fragments and the bounded log of what happened to them.

pub mod cache;
pub mod laws;
pub mod log;
pub mod logs;
pub mod model;

pub use self::log::{FragmentId, FragmentLog, FragmentOrigin, FragmentStatus};
pub use self::logs::Logs;
