//! The notification hub: who is subscribed, who is let in, what is sent for
//! an event, and who is struck off after a failed send.

pub mod broadcast;
pub mod laws;
pub mod message;
pub mod registry;

pub use self::broadcast::Broadcast;
pub use self::message::Message;
pub use self::registry::{Admission, Notifier};
