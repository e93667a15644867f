[package]
name = "balance_board"
version = "0.1.0"
edition = "2021"
publish = false

[dependencies]
ctrlc = "3.4"
evdev = "0.13"
hidapi = { version = "2.6", default-features = false, features = ["linux-native-basic-udev"] }
windows-sys = { version = "0.59", features = ["Win32_Foundation", "Win32_Devices_Bluetooth"] }
