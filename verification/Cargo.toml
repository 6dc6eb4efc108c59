[package]
name = "synth_rack"
version = "0.1.0"
edition = "2021"
publish = false

[dependencies]
rtrb = "=0.4.1"
topo_sort = "=0.4.0"
serde = { version = "=1.0.229", features = ["derive"] }
toml = "=1.2.1"
cpal = "=0.18.2"
quanta = "=0.13.0"
rand = "=0.10.3"
