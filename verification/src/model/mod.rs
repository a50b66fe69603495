pub mod entry;

pub use entry::{Category, Event, LogMessage, MessageKind, PassKind};
pub use entry::{EventV, KindV, LogMessageV, PassKindV};
