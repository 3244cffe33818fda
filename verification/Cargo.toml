[package]
name = "pulse_tui"
version = "0.1.0"
edition = "2021"
publish = false

[dependencies]
chrono = { version = "0.4", default-features = false, features = ["clock", "std"] }
serialport = { version = "4", default-features = false }
tokio = { version = "1", features = ["full"] }
rumqttc = "0.24"
tokio-modbus = { version = "*", default-features = false, features = ["tcp"] }
async-opcua = { version = "*", features = ["client"] }
ratatui = "*"
crossterm = "*"
arboard = { version = "3", default-features = false }
clap = { version = "4", features = ["derive"] }
serde = { version = "1", features = ["derive"] }
toml = "*"
anyhow = "1"
tracing-subscriber = "0.3"
