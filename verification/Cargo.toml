[package]
name = "proc-daemon"
version = "1.1.1"
edition = "2021"
publish = false

[dependencies]
tokio = { version = "1", features = ["rt-multi-thread", "macros", "time", "sync", "signal", "net", "fs"] }
futures = "0.3"
tracing = "0.1"
tracing-subscriber = { version = "0.3", features = ["env-filter", "fmt"] }
num_cpus = "1"
parking_lot = "0.12"
quanta = "0.12"
arc-swap = "1"
notify = "6"
nix = { version = "0.29", features = ["sched", "process"] }
