[package]
name = "licenses_md"
version = "0.1.0"
edition = "2021"
publish = false

[dependencies]
chrono = "=0.4.45"
http = "=1.5.0"
comrak = "=0.56.0"
clap = { version = "*", features = ["derive"] }
tokio = { version = "*", features = ["macros", "rt-multi-thread"] }
reqwest = { version = "*", default-features = false }
async-fs = "*"
futures-lite = "*"
cargo_metadata = "=0.21.0"
cargo-license = "=0.7.0"
log = "*"
pretty_env_logger = "*"
