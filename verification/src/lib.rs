//! Transaction-relay bookkeeping and live-event fan-out of a blockchain node.
//!
//! [`fragment`] holds the bounded log of fragment statuses, [`notifier`] the
//! registry of subscribers and the decisions of the broadcast hub. [`rest`]
//! lays out the reply to a failed request, and [`testing`] holds what tests
//! need to drive a node from outside. [`header`] and [`text`] write ids and
//! numbers out as text.

pub mod fragment;
pub mod header;
pub mod notifier;
pub mod rest;
pub mod testing;
pub mod text;
