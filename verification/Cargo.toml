[package]
name = "gpu_bandwidth"
version = "0.1.0"
edition = "2021"
publish = false

[dependencies]
futures = "0.3"
futures-intrusive = "0.5"
pbr = "1"
prettytable-rs = "0.10"
structopt = "0.3"
wgpu = "0.17"
