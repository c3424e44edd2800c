[package]
name = "finality-selendra"
version = "0.1.0"
edition = "2021"
publish = false

[dependencies]
async-trait = "=0.1.92"
futures = "=0.3.34"
log = "=0.4.34"
parity-scale-codec = { version = "=3.7.5", features = ["derive"] }
sp-consensus = "*"
sp-runtime = "*"
tokio = { version = "=1.54.1", features = ["macros", "rt", "time"] }
