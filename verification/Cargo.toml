[package]
name = "roosty_clockd"
version = "0.1.0"
edition = "2021"
publish = false

[dependencies]
bitcode = { version = "*", features = ["serde"] }
chrono = { version = "0.4", features = ["serde"] }
cpvc = "*"
crossbeam-channel = "0.5"
directories = "*"
interprocess = "2"
rodio = "*"
serde = { version = "1", features = ["derive"] }
timer = "0.2"
toml = "*"
toml-datetime-compat = { version = "*", features = ["chrono"] }
