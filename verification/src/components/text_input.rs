//! The line in which a message is written.

use crate::service::handler::{RoomsRequest, RoomsRequestView};
use crate::service::message::{Message, MessageView};
use crate::service::name::OrangeName;
use crate::service::path::Id;
use crate::service::time::{now, Timestamp};
use vstd::prelude::*;

verus! {

/// The input of a conversation: what is written in it goes to the room it belongs to.
#[derive(Clone, Copy, Debug, PartialEq, Eq, Structural, Hash)]
pub struct TextInputMessages {
    pub room: Id,
}

impl TextInputMessages {
    pub fn new(current_room_id: Id) -> (input: TextInputMessages)
        ensures
            input.room == current_room_id,
    {
        TextInputMessages { room: current_room_id }
    }

    /// What sending `text` at the instant `at` asks for: nothing where nothing is
    /// written, and else that the text be appended to the room as a message of `me`.
    pub fn send_at(&self, me: OrangeName, text: &String, at: Timestamp) -> (request: Option<
        RoomsRequest,
    >)
        ensures
            match request {
                Some(r) => text@.len() > 0 && r@ == RoomsRequestView::CreateMessage(
                    self.room,
                    MessageView { text: text@, at, author: me@, read: false },
                ),
                None => text@.len() == 0,
            },
    {
        if text.as_str().is_empty() {
            None
        } else {
            Some(RoomsRequest::CreateMessage(self.room, Message::stamped(text.clone(), me, at)))
        }
    }

    /// What sending `text` now asks for.
    pub fn send(&self, me: OrangeName, text: &String) -> (request: Option<RoomsRequest>)
        ensures
            match request {
                Some(r) => text@.len() > 0 && (r@ matches RoomsRequestView::CreateMessage(
                    room,
                    message,
                ) && room == self.room && message.text == text@ && message.author == me@
                    && !message.read),
                None => text@.len() == 0,
            },
    {
        let at = now();
        self.send_at(me, text, at)
    }
}

} // verus!
