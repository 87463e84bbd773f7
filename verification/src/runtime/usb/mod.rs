//! The USB side of the board.

pub mod device_manager;
pub mod monitor;
