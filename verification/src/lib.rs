//! A structured JSON formatting core for a tree-shaped span runtime.
//!
//! Spans carry an evolving set of attributes; children inherit their
//! parent's attributes at creation; every lifecycle transition (enter,
//! event, exit) is rendered as one self-contained, newline-terminated
//! JSON record.

mod error;
mod formatting;
mod host;
mod storage;
mod util;
mod value;

pub use error::SproutError;
pub use formatting::TrunkLayer;
pub use util::Level;
pub use util::SpanMetadata;
pub use util::ThreadInfo;
pub use util::Type;
pub use storage::AttrObject;
pub use storage::SproutStorage;
pub use value::JsonVal;
pub use value::SpecVal;
