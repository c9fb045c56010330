[package]
name = "f1rma"
version = "0.1.0"
edition = "2021"
publish = false

[dependencies]
aes-gcm = "0.10"
sha2 = "0.10"
rand = "0.8"
uuid = { version = "1", features = ["v4", "serde"] }
chrono = { version = "0.4", default-features = false, features = ["now", "serde"] }
hostname = "0.4"
whoami = "1"
serde = { version = "1", features = ["derive"] }
serde_json = "1"
directories = "5"
walkdir = "2"
mdns-sd = "0.11"
flume = "0.11"
log = "0.4"
env_logger = { version = "0.11", default-features = false }
open = "5"
egui = { version = "0.29", default-features = false, features = ["default_fonts"] }
