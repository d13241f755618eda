//! What the screens of the messaging feature show, worked out from rooms and messages.
//!
//! The values here say what a widget holds; drawing them is left to the toolkit.

pub mod avatar;
pub mod interface;
pub mod list_item;
pub mod message;
pub mod quick_deselect;
pub mod text;
pub mod text_input;

pub use avatar::{AvatarContentMessages, AvatarMessages, AvatarRow};
pub use interface::{HeaderContentMessages, HeaderMessages};
pub use list_item::{ListItemGroupMessages, ListItemMessages};
pub use message::{MessageType, TextMessage, TextMessageGroup};
pub use quick_deselect::QuickDeselect;
pub use text_input::TextInputMessages;
