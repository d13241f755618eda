//! Messages as a conversation shows them: in bubbles, gathered by author and minute.

use crate::service::message::{message_views, Message, MessageView};
use crate::service::name::OrangeName;
use crate::service::time::Timestamp;
use vstd::prelude::*;

verus! {

/// How a message is drawn: as one's own, as that of the other party of a direct
/// conversation, as that of a member of a group, or as that of a member of a room.
#[derive(Clone, Copy, Debug, PartialEq, Eq, Structural, Hash)]
pub enum MessageType {
    You,
    Contact,
    Group,
    Rooms,
}

/// Where a widget sits along its axis.
#[derive(Clone, Copy, Debug, PartialEq, Eq, Structural, Hash)]
pub enum Offset {
    Start,
    Center,
    End,
}

/// The colour that fills a bubble, by its name in the theme.
#[derive(Clone, Copy, Debug, PartialEq, Eq, Structural, Hash)]
pub enum BubbleFill {
    BrandPrimary,
    BackgroundPrimary,
    BackgroundSecondary,
}

/// The style of the text in a bubble, by its name in the theme.
#[derive(Clone, Copy, Debug, PartialEq, Eq, Structural, Hash)]
pub enum BubbleText {
    White,
    Primary,
}

impl MessageType {
    /// The style of a message by `author` on the screen of `me`: one's own messages are
    /// drawn as one's own, whatever the conversation.
    pub open spec fn spec_seen_by(self, author: Seq<char>, me: Seq<char>) -> MessageType {
        if author == me {
            MessageType::You
        } else {
            self
        }
    }

    pub fn seen_by(self, author: &OrangeName, me: &OrangeName) -> (style: MessageType)
        ensures
            style == self.spec_seen_by(author@, me@),
    {
        if author.same(me) {
            MessageType::You
        } else {
            self
        }
    }

    /// Where the row of avatar and bubbles sits: at the start in a room, at the end
    /// elsewhere.
    pub fn row_offset(self) -> (offset: Offset)
        ensures
            offset == if self == MessageType::Rooms {
                Offset::Start
            } else {
                Offset::End
            },
    {
        match self {
            MessageType::Rooms => Offset::Start,
            _ => Offset::End,
        }
    }

    /// Whether the author's avatar stands beside the bubbles: beside all but one's own.
    pub fn has_avatar(self) -> (shown: bool)
        ensures
            shown == (self != MessageType::You),
    {
        match self {
            MessageType::You => false,
            _ => true,
        }
    }

    /// Where the bubbles sit in their column: one's own at the end, the others at the
    /// start.
    pub fn column_offset(self) -> (offset: Offset)
        ensures
            offset == if self == MessageType::You {
                Offset::End
            } else {
                Offset::Start
            },
    {
        match self {
            MessageType::You => Offset::End,
            _ => Offset::Start,
        }
    }

    /// Whether the line of name and time stands above the bubbles: in a room it does,
    /// elsewhere it stands below.
    pub fn data_on_top(self) -> (top: bool)
        ensures
            top == (self == MessageType::Rooms),
    {
        match self {
            MessageType::Rooms => true,
            _ => false,
        }
    }

    /// Whether the author's name is written beside the time: in groups and rooms.
    pub fn shows_name(self) -> (shown: bool)
        ensures
            shown == (self == MessageType::Group || self == MessageType::Rooms),
    {
        match self {
            MessageType::Group | MessageType::Rooms => true,
            _ => false,
        }
    }

    /// The colours of a bubble: one's own in the colour of the brand with white text,
    /// those of a room on the first background with white text, the others on the
    /// second background with the text of the theme.
    pub fn bubble(self) -> (colours: (BubbleFill, BubbleText))
        ensures
            colours == match self {
                MessageType::You => (BubbleFill::BrandPrimary, BubbleText::White),
                MessageType::Rooms => (BubbleFill::BackgroundPrimary, BubbleText::White),
                MessageType::Group => (BubbleFill::BackgroundSecondary, BubbleText::Primary),
                MessageType::Contact => (BubbleFill::BackgroundSecondary, BubbleText::Primary),
            },
    {
        match self {
            MessageType::You => (BubbleFill::BrandPrimary, BubbleText::White),
            MessageType::Rooms => (BubbleFill::BackgroundPrimary, BubbleText::White),
            MessageType::Group | MessageType::Contact => (
                BubbleFill::BackgroundSecondary,
                BubbleText::Primary,
            ),
        }
    }

    /// Whether a dot parts the name from the time: in groups.
    pub fn shows_divider(self) -> (shown: bool)
        ensures
            shown == (self == MessageType::Group),
    {
        match self {
            MessageType::Group => true,
            _ => false,
        }
    }
}

/// The texts of a list, each as contracts speak of it.
pub open spec fn text_views(texts: Seq<String>) -> Seq<Seq<char>> {
    texts.map_values(|t: String| t@)
}

/// The bubbles of one author that belong together, with the time of the last of them.
#[derive(Debug, PartialEq, Eq)]
pub struct TextMessage {
    pub style: MessageType,
    pub messages: Vec<String>,
    pub author: OrangeName,
    pub timestamp: Timestamp,
}

/// A gathering of bubbles as contracts speak of it.
pub struct TextMessageView {
    pub style: MessageType,
    pub messages: Seq<Seq<char>>,
    pub author: Seq<char>,
    pub timestamp: Timestamp,
}

impl View for TextMessage {
    type V = TextMessageView;

    open spec fn view(&self) -> TextMessageView {
        TextMessageView {
            style: self.style,
            messages: text_views(self.messages@),
            author: self.author@,
            timestamp: self.timestamp,
        }
    }
}

impl TextMessage {
    /// The bubbles `messages` of `author` as the screen of `me` shows them in a
    /// conversation of the given style.
    pub fn new(
        me: &OrangeName,
        style: MessageType,
        messages: Vec<String>,
        author: OrangeName,
        timestamp: Timestamp,
    ) -> (bubbles: TextMessage)
        ensures
            bubbles@ == (TextMessageView {
                style: style.spec_seen_by(author@, me@),
                messages: text_views(messages@),
                author: author@,
                timestamp,
            }),
    {
        let style = style.seen_by(&author, me);
        TextMessage { style, messages, author, timestamp }
    }
}

/// The gatherings of a list, each as contracts speak of it.
pub open spec fn group_views(groups: Seq<TextMessage>) -> Seq<TextMessageView> {
    groups.map_values(|g: TextMessage| g@)
}

/// The number of bubbles in the gatherings.
pub open spec fn bubbles_in(groups: Seq<TextMessageView>) -> nat
    decreases groups.len(),
{
    if groups.len() == 0 {
        0
    } else {
        bubbles_in(groups.drop_last()) + groups.last().messages.len()
    }
}

/// Gathering loses and adds nothing: there are as many bubbles as messages.
pub proof fn lemma_gathering_keeps_every_message(
    messages: Seq<MessageView>,
    style: MessageType,
    me: Seq<char>,
)
    ensures
        bubbles_in(TextMessageGroup::gathered(messages, style, me)) == messages.len(),
    decreases messages.len(),
{
    if messages.len() > 0 {
        let before = TextMessageGroup::gathered(messages.drop_last(), style, me);
        let after = TextMessageGroup::gathered(messages, style, me);
        let m = messages.last();
        lemma_gathering_keeps_every_message(messages.drop_last(), style, me);
        if before.len() > 0 && TextMessageGroup::goes_on(before.last(), m.author, m.at) {
            assert(after.drop_last() =~= before.drop_last());
            assert(after.last().messages.len() == before.last().messages.len() + 1);
        } else {
            assert(after.drop_last() =~= before);
        }
    }
}

/// A conversation as it is drawn: its messages gathered into runs of bubbles.
#[derive(Debug, PartialEq, Eq)]
pub struct TextMessageGroup(pub Vec<TextMessage>);

impl View for TextMessageGroup {
    type V = Seq<TextMessageView>;

    open spec fn view(&self) -> Seq<TextMessageView> {
        group_views(self.0@)
    }
}

impl TextMessageGroup {
    /// Whether a message at `at` by `author` goes on in the gathering `last`: the
    /// author is the same and the message comes no more than a minute after the one
    /// before it, by the difference that `chrono` takes of the two instants.
    pub open spec fn goes_on(last: TextMessageView, author: Seq<char>, at: Timestamp) -> bool {
        last.author == author && at.spec_within(last.timestamp, 60)
    }

    /// The gatherings of the messages: a message goes into the gathering of the one
    /// before it where it goes on in it, and opens a new gathering otherwise. A
    /// gathering carries the time of its last message.
    pub open spec fn gathered(messages: Seq<MessageView>, style: MessageType, me: Seq<char>) -> Seq<
        TextMessageView,
    >
        decreases messages.len(),
    {
        if messages.len() == 0 {
            Seq::empty()
        } else {
            let before = Self::gathered(messages.drop_last(), style, me);
            let m = messages.last();
            if before.len() > 0 && Self::goes_on(before.last(), m.author, m.at) {
                before.update(
                    before.len() - 1,
                    TextMessageView {
                        messages: before.last().messages.push(m.text),
                        timestamp: m.at,
                        ..before.last()
                    },
                )
            } else {
                before.push(
                    TextMessageView {
                        style: style.spec_seen_by(m.author, me),
                        messages: Seq::empty().push(m.text),
                        author: m.author,
                        timestamp: m.at,
                    },
                )
            }
        }
    }

    /// The messages of a conversation of the given style, gathered for the screen of
    /// `me`.
    pub fn new(me: &OrangeName, messages: &Vec<Message>, style: MessageType) -> (group:
        TextMessageGroup)
        ensures
            group@ == Self::gathered(message_views(messages@), style, me@),
    {
        let ghost all = message_views(messages@);
        let mut groups: Vec<TextMessage> = Vec::new();
        let mut i: usize = 0;
        proof {
            assert(all.take(0) =~= Seq::empty());
            assert(group_views(groups@) =~= Seq::empty());
        }
        while i < messages.len()
            invariant
                i <= messages.len(),
                all == message_views(messages@),
                group_views(groups@) == Self::gathered(all.take(i as int), style, me@),
            decreases messages.len() - i,
        {
            let m = &messages[i];
            let ghost before = group_views(groups@);
            proof {
                assert(all.take(i + 1).drop_last() =~= all.take(i as int));
                assert(all.take(i + 1).last() == m@);
            }
            let n = groups.len();
            let mut goes_on = false;
            if n > 0 {
                let last = &groups[n - 1];
                assert(before[n - 1] == last@);
                goes_on = last.author.same(m.author()) && m.timestamp().within(&last.timestamp, 60);
            }
            if goes_on {
                let ghost texts = groups@[n - 1].messages@;
                groups[n - 1].messages.push(m.message().clone());
                groups[n - 1].timestamp = *m.timestamp();
                proof {
                    assert(text_views(groups@[n - 1].messages@) =~= text_views(texts).push(
                        m@.text,
                    ));
                    assert(group_views(groups@) =~= before.update(
                        n - 1,
                        TextMessageView {
                            messages: before.last().messages.push(m@.text),
                            timestamp: m@.at,
                            ..before.last()
                        },
                    ));
                }
            } else {
                let mut texts: Vec<String> = Vec::new();
                texts.push(m.message().clone());
                assert(text_views(texts@) =~= Seq::empty().push(m@.text));
                let bubbles = TextMessage::new(me, style, texts, m.author().clone(), *m.timestamp());
                groups.push(bubbles);
                assert(group_views(groups@) =~= before.push(bubbles@));
            }
            i += 1;
        }
        assert(all.take(messages.len() as int) =~= all);
        TextMessageGroup(groups)
    }

    /// The number of bubbles drawn, or the largest number that fits where there are
    /// more.
    pub fn count(&self) -> (n: usize)
        ensures
            n == if bubbles_in(self@) <= usize::MAX {
                bubbles_in(self@)
            } else {
                usize::MAX as nat
            },
    {
        let ghost all = self@;
        let mut n: usize = 0;
        let mut i: usize = 0;
        assert(all.take(0) =~= Seq::empty());
        while i < self.0.len()
            invariant
                i <= self.0.len(),
                all == self@,
                n == if bubbles_in(all.take(i as int)) <= usize::MAX {
                    bubbles_in(all.take(i as int))
                } else {
                    usize::MAX as nat
                },
            decreases self.0.len() - i,
        {
            proof {
                assert(all.take(i + 1).drop_last() =~= all.take(i as int));
                assert(all.take(i + 1).last() == self.0@[i as int]@);
            }
            n = n.saturating_add(self.0[i].messages.len());
            i += 1;
        }
        assert(all.take(self.0.len() as int) =~= all);
        n
    }
}

} // verus!
