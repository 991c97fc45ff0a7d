[package]
name = "rde"
version = "0.1.0"
edition = "2021"
publish = false

[dependencies]
rustc-demangle = "0.1"
capstone = "0.12"
pdb = "0.8"
memmap2 = "0.9"
tokio = { version = "1", features = ["rt-multi-thread", "macros", "sync", "io-util", "io-std", "time", "process"] }
clap = { version = "4", features = ["derive"] }
tracing = "0.1"
tracing-subscriber = "0.3"
serde = { version = "1", features = ["derive"] }
serde_json = "1"
thiserror = "1"
uuid = "1"
async-trait = "0.1"
futures = "0.3"
ratatui = "0.29"
crossterm = { version = "0.28", features = ["event-stream"] }
