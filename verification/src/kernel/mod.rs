//! The device core: wire formats, state machines and rules, free of I/O.

pub mod audio;
pub mod bindings_blob;
pub mod bytes;
pub mod consumer_hold;
pub mod error;
pub mod event;
pub mod key_aggregator;
pub mod key_list;
pub mod msbc;
pub mod protocol_gatt;
pub mod protocol_hid;
pub mod sink;
pub mod text;
pub mod types;
