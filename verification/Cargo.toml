[package]
name = "perf_rs"
version = "0.1.0"
edition = "2021"
publish = false

[dependencies]
byteorder = "1"
perf-event2 = "0.7"
addr2line = "0.21"
gimli = "0.28"
memmap2 = "0.9"
libc = "0.2"
nix = { version = "0.27", features = ["signal", "process"] }
clap = { version = "4", features = ["derive"] }
anyhow = "1"
thiserror = "1"
log = "0.4"
env_logger = "0.10"
