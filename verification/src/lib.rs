//! Core of the board SDK: protocols, decoders, key tracking and session logic.

pub mod dfu;
pub mod facade;
pub mod kernel;
pub mod runtime;
pub mod tool;

pub use facade::device::BoardConfig;
pub use facade::events::EventStreamError;
pub use kernel::audio::{
    AudioCapabilities, AudioFrame, AudioRouteRequest, AudioStreamAction, AudioStreamScope,
    AudioStreamState, AudioTransport,
};
pub use kernel::error::BoardError;
pub use kernel::event::{BoardEvent, FactoryKeyEvent, ModeChangeEvent, ModeSource};
pub use kernel::protocol_hid::{FactoryKeyControlAck, FactoryKeyControlResult, WorkMode};
pub use kernel::types::ConnectionType;
pub use runtime::ble::gatt_client::BleDeviceInfo;
