[package]
name = "nu_engine"
version = "0.1.0"
edition = "2021"
publish = false

[dependencies]
ansi_term = "=0.12.1"
bigdecimal = "=0.2.2"
derive-new = "=0.5.9"
futures = "=0.3.34"
getset = "=0.1.7"
htmlescape = "=0.3.1"
ichwh = "=0.3.4"
indexmap = "=1.9.3"
itertools = "=0.10.5"
log = "=0.4.34"
num-traits = "=0.2.19"
parking_lot = "=0.11.2"
polars = { version = "=0.14.8", features = ["json", "parquet", "strings"] }
rand = "=0.8.8"
serde = { version = "=1.0.229", features = ["derive"] }
serde_json = "=1.0.154"
sysinfo = "=0.16.5"
toml = "=0.5.11"
url = "=2.5.8"
