[package]
name = "omarchy-mic"
version = "0.1.0"
edition = "2021"
publish = false

[dependencies]
clap = { version = "4", features = ["derive"] }
hidapi = { version = "2", default-features = false, features = ["linux-native-basic-udev"] }
serde_json = "1"
