//! Messages and the correlation ids of rooms.

use crate::service::codec::{message_from_json, message_json, read_message, write_message};
use crate::service::name::{orange_name_text, OrangeName};
use crate::service::time::{now, Timestamp};
use vstd::prelude::*;
use vstd::string::StringExecFns;

verus! {

/// The id that the creator of a room mints for it, to know the room again once discovery
/// brings it back: the 128 bits of a UUID.
#[derive(Clone, Copy, Debug, PartialEq, Eq, Structural, Hash)]
pub struct Uuid(pub u128);

/// `uuid::Uuid::new_v4`: an id drawn at random, as its 128 bits. Chance decides the
/// value.
#[verifier::external_body]
pub(crate) fn fresh_uuid() -> (id: Uuid) {
    Uuid(uuid::Uuid::new_v4().as_u128())
}

/// A message as contracts speak of it.
pub struct MessageView {
    pub text: Seq<char>,
    pub at: Timestamp,
    pub author: Seq<char>,
    pub read: bool,
}

/// The text of the message that marks a participant joining a room. No rendering for
/// users shows a message with this text.
pub open spec fn joined_text() -> Seq<char> {
    "__system__joined"@
}

/// A message: what was written, when the author stamped it, by whom, and whether it has
/// been read here.
#[derive(Debug, PartialEq, Eq)]
pub struct Message {
    text: String,
    at: Timestamp,
    author: OrangeName,
    read: bool,
}

impl View for Message {
    type V = MessageView;

    closed spec fn view(&self) -> MessageView {
        MessageView { text: self.text@, at: self.at, author: self.author@, read: self.read }
    }
}

impl Clone for Message {
    fn clone(&self) -> (copy: Self)
        ensures
            copy@ == self@,
    {
        Message {
            text: self.text.clone(),
            at: self.at,
            author: self.author.clone(),
            read: self.read,
        }
    }
}

/// The messages of a list, each as contracts speak of it.
pub open spec fn message_views(messages: Seq<Message>) -> Seq<MessageView> {
    messages.map_values(|m: Message| m@)
}

/// A copy of a list of messages.
pub fn copy_messages(messages: &Vec<Message>) -> (copy: Vec<Message>)
    ensures
        message_views(copy@) == message_views(messages@),
{
    let mut copy: Vec<Message> = Vec::new();
    let mut i: usize = 0;
    while i < messages.len()
        invariant
            i <= messages.len(),
            copy.len() == i,
            forall|k: int| 0 <= k < i ==> copy@[k]@ == messages@[k]@,
        decreases messages.len() - i,
    {
        copy.push(messages[i].clone());
        i += 1;
    }
    assert(message_views(copy@) =~= message_views(messages@));
    copy
}

/// The messages, all read.
pub open spec fn all_read(messages: Seq<MessageView>) -> Seq<MessageView> {
    messages.map_values(|m: MessageView| MessageView { read: true, ..m })
}

/// Marks every message read.
pub fn mark_read(messages: &mut Vec<Message>)
    ensures
        message_views(final(messages)@) == all_read(message_views(old(messages)@)),
{
    let ghost before = message_views(messages@);
    let mut i: usize = 0;
    while i < messages.len()
        invariant
            i <= messages.len(),
            messages.len() == before.len(),
            forall|k: int| 0 <= k < i ==> (#[trigger] messages@[k])@ == all_read(before)[k],
            forall|k: int| i <= k < messages.len() ==> (#[trigger] messages@[k])@ == before[k],
        decreases messages.len() - i,
    {
        if !*messages[i].is_read() {
            messages[i].read(true);
        }
        i += 1;
    }
    assert(message_views(messages@) =~= all_read(before));
}

/// The messages that a rendering shows: all but those that mark a participant joining.
pub open spec fn shown(messages: Seq<MessageView>) -> Seq<MessageView> {
    messages.filter(|m: MessageView| m.text != joined_text())
}

/// The messages of the list that a rendering shows, in their order.
pub fn without_joined(messages: &Vec<Message>) -> (kept: Vec<Message>)
    ensures
        message_views(kept@) == shown(message_views(messages@)),
{
    let ghost all = message_views(messages@);
    let ghost keep = |m: MessageView| m.text != joined_text();
    let mut kept: Vec<Message> = Vec::new();
    let mut i: usize = 0;
    proof {
        assert(all.take(0) =~= Seq::empty());
        assert(message_views(kept@) =~= Seq::empty());
        reveal(Seq::filter);
    }
    while i < messages.len()
        invariant
            i <= messages.len(),
            all == message_views(messages@),
            keep == |m: MessageView| m.text != joined_text(),
            message_views(kept@) == all.take(i as int).filter(keep),
        decreases messages.len() - i,
    {
        proof {
            reveal(Seq::filter);
            assert(all.take(i + 1).drop_last() =~= all.take(i as int));
            assert(all.take(i + 1).last() == messages@[i as int]@);
        }
        if !messages[i].is_joined() {
            let ghost before = message_views(kept@);
            kept.push(messages[i].clone());
            assert(message_views(kept@) =~= before.push(messages@[i as int]@));
        }
        i += 1;
    }
    assert(all.take(messages.len() as int) =~= all);
    kept
}

impl Message {
    /// The payload under which a message is stored, if it can be written.
    pub open spec fn payload_of(m: MessageView) -> Option<Seq<u8>> {
        message_json(m.text, m.at.secs, m.at.nanos, m.author, m.read)
    }

    /// The message that a payload holds: its four fields, the author's name in its
    /// printed form. `None` where the payload is no such array or names no participant.
    pub open spec fn message_of(bytes: Seq<u8>) -> Option<MessageView> {
        match message_from_json(bytes) {
            Some((text, secs, nanos, author, read)) => match orange_name_text(author) {
                Some(name) => Some(
                    MessageView { text, at: Timestamp { secs, nanos }, author: name, read },
                ),
                None => None,
            },
            None => None,
        }
    }

    /// A message written by `author` at the instant `at`, not yet read.
    pub fn stamped(message: String, author: OrangeName, at: Timestamp) -> (m: Message)
        ensures
            m@ == (MessageView { text: message@, at, author: author@, read: false }),
    {
        Message { text: message, at, author, read: false }
    }

    /// The message that marks `author` joining a room at the instant `at`. It counts as
    /// read: it tells of an event and asks for nobody's attention.
    pub fn joined(author: OrangeName, at: Timestamp) -> (m: Message)
        ensures
            m@ == (MessageView { text: joined_text(), at, author: author@, read: true }),
    {
        Message { text: String::from_str("__system__joined"), at, author, read: true }
    }

    /// A message written by `author` now.
    pub fn from(message: String, author: OrangeName) -> (m: Message)
        ensures
            m@.text == message@,
            m@.author == author@,
            !m@.read,
            m@.at.secs >= 0,
            m@.at.nanos < 1_000_000_000,
    {
        Message::stamped(message, author, now())
    }

    /// The message that marks `author` joining a room now.
    pub fn invisible(author: OrangeName) -> (m: Message)
        ensures
            m@.text == joined_text(),
            m@.author == author@,
            m@.read,
            m@.at.secs >= 0,
            m@.at.nanos < 1_000_000_000,
    {
        Message::joined(author, now())
    }

    pub fn author(&self) -> (author: &OrangeName)
        ensures
            author@ == self@.author,
    {
        &self.author
    }

    pub fn timestamp(&self) -> (at: &Timestamp)
        ensures
            *at == self@.at,
    {
        &self.at
    }

    pub fn message(&self) -> (text: &String)
        ensures
            text@ == self@.text,
    {
        &self.text
    }

    pub fn is_read(&self) -> (read: &bool)
        ensures
            *read == self@.read,
    {
        &self.read
    }

    /// Marks the message read or unread.
    pub fn read(&mut self, status: bool)
        ensures
            final(self)@ == (MessageView { read: status, ..old(self)@ }),
    {
        self.read = status;
    }

    /// Whether this is the message that marks a participant joining.
    pub fn is_joined(&self) -> (b: bool)
        ensures
            b == (self@.text == joined_text()),
    {
        self.text == String::from_str("__system__joined")
    }

    /// The payload under which this message is stored; `None` where it cannot be
    /// written. A payload that was written holds this message again.
    pub fn encode(&self) -> (bytes: Option<Vec<u8>>)
        ensures
            match bytes {
                Some(b) => Self::payload_of(self@) == Some(b@) && Self::message_of(b@) == Some(
                    self@,
                ),
                None => Self::payload_of(self@) is None,
            },
    {
        write_message(&self.text, self.at, self.author.as_str(), self.read)
    }

    /// The message that a payload holds, if it holds one.
    pub fn decode(bytes: &Vec<u8>) -> (m: Option<Message>)
        ensures
            match m {
                Some(m) => Self::message_of(bytes@) == Some(m@),
                None => Self::message_of(bytes@) is None,
            },
    {
        match read_message(bytes) {
            Some((text, at, author, read)) => match OrangeName::parse(author.as_str()) {
                Some(author) => Some(Message { text, at, author, read }),
                None => None,
            },
            None => None,
        }
    }
}

} // verus!
