[package]
name = "rseq_main"
version = "0.1.0"
edition = "2021"
publish = false

[dependencies]
object = "=0.40.0"
memmap2 = "=0.9.12"
syscalls = "=0.8.1"
dlopen-rs = "=0.8.0"
enumflags2 = "=0.7.12"
serde = { version = "=1.0.229", features = ["derive"] }
serde_json = "=1.0.154"
syn = { version = "=2.0.119", features = ["full", "visit", "extra-traits"] }
quote = "=1.0.47"
proc-macro2 = "=1.0.107"
prettyplease = "=0.2.37"
walkdir = "=2.5.0"
cargo_metadata = "=0.23.1"

[dev-dependencies]
regex = "=1.13.1"
object = { version = "=0.40.0", features = ["write"] }
