//! The BLE side of the board.

pub mod gatt_client;
