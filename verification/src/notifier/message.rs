//! The events that the hub passes on, and their text on the wire.

use crate::header::{hex_text, HeaderId};
use vstd::prelude::*;
use vstd::string::StringExecFns;

verus! {

/// An event that every current subscriber is told of.
#[derive(Clone, Copy, Debug, PartialEq, Eq)]
pub enum Message {
    /// A block was added to the chain.
    NewBlock(HeaderId),
    /// The tip of the chain moved to this block.
    NewTip(HeaderId),
}

/// The text that stands for an event on the wire: what happened, a colon and
/// a space, and the id of the block in base 16.
pub open spec fn message_text(message: Message) -> Seq<char> {
    match message {
        Message::NewBlock(id) => "new block: "@ + hex_text(id.bytes@),
        Message::NewTip(id) => "new tip: "@ + hex_text(id.bytes@),
    }
}

impl Message {
    /// The text that is sent to the subscribers for this event.
    pub fn text(&self) -> (text: String)
        ensures
            text@ == message_text(*self),
    {
        match self {
            Message::NewBlock(id) => String::from_str("new block: ").concat(id.to_hex().as_str()),
            Message::NewTip(id) => String::from_str("new tip: ").concat(id.to_hex().as_str()),
        }
    }
}

} // verus!
