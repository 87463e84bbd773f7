//! Session logic of the connected board: what the transports deliver goes in as plain values,
//! events and the next action come out.

pub mod ble;
pub mod commands;
pub mod device;
pub mod hotplug;
pub mod usb;
pub mod usb_capture;
pub mod usb_hid_audio;
