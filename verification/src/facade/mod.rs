//! What the user of the library sees: configuration, event stream and the work mode.

pub mod device;
pub mod events;
