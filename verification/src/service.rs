//! The room and message engine: its values, its cache and its two tasks.

pub mod cache;
pub mod claims;
pub mod codec;
pub mod handler;
pub mod ledger;
pub mod message;
pub mod name;
pub mod passes;
pub mod path;
pub mod rooms;
pub mod shares;
pub mod store;
pub mod sync;
pub mod time;

pub use cache::RoomsCache;
pub use handler::{RoomsRequest, RoomsService};
pub use message::{Message, Uuid};
pub use name::OrangeName;
pub use path::{Id, RecordPath};
pub use rooms::{Room, Rooms};
pub use sync::RoomsSync;
pub use time::Timestamp;
