//! Firmware upgrade over the board's own USB HID upgrade protocol.
//!
//! New firmware goes to a staging partition, and END makes the board verify it. To leave the
//! upgrade mode after a failure the host sends PREPARE and END: the board ignores a bare END.

pub mod client;
pub mod protocol;
pub mod recover;
pub mod types;
