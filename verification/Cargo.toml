[package]
name = "buffett_bots"
version = "0.1.0"
edition = "2021"
publish = false

[dependencies]
bincode = "1"
bytes = "0.4"
clap = "2"
influx_db_client = "0.3"
log = "0.4"
rayon = "1"
serde_json = "1"
tokio = "0.1"
tokio-codec = "0.1"
