# reai_board_sdk

A library for talking to the REAI voice board over USB HID and BLE GATT: frames and
replies, key and knob events, board audio (mSBC), key configuration and the bindings
blob, firmware upgrades, and the hotplug logic that decides which connection to hold.

The library under `src/` is verified with Verus. Every function there carries a contract;
the state machines (`HotplugManager`, `DfuClient`, `BoardDeviceCore`, `VendorGattClient`,
`HidMonitor`) take an event and return what to do next, so that their decisions are
proved without any I/O.

- `src/kernel/`: byte formats, key events, audio packets, the mSBC decoder, the bindings
  blob
- `src/dfu/`: firmware upgrade and recovery
- `src/runtime/`: connections, commands, audio leases, hotplug
- `src/facade/`: event filtering and the view of the device that a caller sees
- `src/tool/`: reading device information and files of mSBC frames
- `tests/`: behaviour on concrete values
- `app/`: ordinary Rust around the library: HID, BLE and audio devices, async plumbing

What is believed without proof is small and marked `external_body`: the string functions
of std in `kernel/text.rs`, the text form of a UUID in `kernel/protocol_gatt.rs`, and the
small vector of key positions in `kernel/key_list.rs`.
