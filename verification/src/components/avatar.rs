//! The pictures of participants and rooms.

use vstd::prelude::*;
use vstd::string::StringExecFns;

verus! {

/// How an icon that stands for a picture is tinted.
#[derive(Clone, Copy, Debug, PartialEq, Eq, Structural, Hash)]
pub enum AvatarIconStyle {
    Primary,
    Secondary,
}

/// What an avatar shows: an icon of the theme, by its name, or an image.
#[derive(Debug, PartialEq, Eq)]
pub enum AvatarContent<I> {
    Icon(String, AvatarIconStyle),
    Image(I),
}

/// The avatars of the messaging screens.
pub struct AvatarContentMessages;

impl AvatarContentMessages {
    /// The picture of a room: its image, or the door where it has none.
    pub fn room<I>(image: Option<I>) -> (content: AvatarContent<I>)
        ensures
            match image {
                Some(i) => content == AvatarContent::Image(i),
                None => content matches AvatarContent::Icon(name, style) && name@ == "door"@
                    && style == AvatarIconStyle::Secondary,
            },
    {
        match image {
            None => AvatarContentMessages::default(),
            Some(i) => AvatarContent::Image(i),
        }
    }

    /// The picture of a room without an image: a door.
    pub fn default<I>() -> (content: AvatarContent<I>)
        ensures
            content matches AvatarContent::Icon(name, style) && name@ == "door"@ && style
                == AvatarIconStyle::Secondary,
    {
        AvatarContent::Icon(String::from_str("door"), AvatarIconStyle::Secondary)
    }
}

/// An avatar beside a message or at the head of a room: its content and its size in
/// points.
#[derive(Debug, PartialEq, Eq)]
pub struct AvatarMessages<I> {
    pub content: AvatarContent<I>,
    pub size: u32,
}

impl<I> AvatarMessages<I> {
    /// The avatar beside the bubbles of a message: 24 points.
    pub fn new(avatar_content: AvatarContent<I>) -> (avatar: AvatarMessages<I>)
        ensures
            avatar.content == avatar_content,
            avatar.size == 24,
    {
        AvatarMessages { content: avatar_content, size: 24 }
    }

    /// The avatar at the head of a room: 128 points.
    pub fn room(content: AvatarContent<I>) -> (avatar: AvatarMessages<I>)
        ensures
            avatar.content == content,
            avatar.size == 128,
    {
        AvatarMessages { content, size: 128 }
    }
}

/// A row of avatars: those of the first five participants.
#[derive(Debug, PartialEq, Eq)]
pub struct AvatarRow<I>(pub Vec<AvatarContent<I>>);

impl<I> AvatarRow<I> {
    /// The avatars that a row holds of those given: the first five.
    pub open spec fn kept(avatars: Seq<AvatarContent<I>>) -> Seq<AvatarContent<I>> {
        if avatars.len() <= 5 {
            avatars
        } else {
            avatars.take(5)
        }
    }

    pub fn new(avatars: Vec<AvatarContent<I>>) -> (row: AvatarRow<I>)
        ensures
            row.0@ == Self::kept(avatars@),
    {
        let mut avatars = avatars;
        avatars.truncate(5);
        AvatarRow(avatars)
    }

    /// Puts the first five of the given avatars in the place of those held.
    pub fn update(&mut self, avatars: Vec<AvatarContent<I>>)
        ensures
            final(self).0@ == Self::kept(avatars@),
    {
        let mut avatars = avatars;
        avatars.truncate(5);
        self.0 = avatars;
    }

    pub fn count(&self) -> (n: usize)
        ensures
            n == self.0@.len(),
    {
        self.0.len()
    }
}

} // verus!
