[package]
name = "lgp_iot_db"
version = "0.1.0"
edition = "2021"
publish = false

[dependencies]
anyhow = "=1.0.104"
chrono = { version = "=0.4.45", features = ["serde"] }
crc = "=3.4.0"
diesel = { version = "=2.3.14", features = ["postgres", "r2d2", "chrono"] }
hex = "=0.4.3"
log = "=0.4.34"
rand = "=0.8.8"
serde = "=1.0.229"
serde_derive = "=1.0.229"
taos = "=0.12.3"
