[package]
name = "rocklang"
version = "0.1.0"
edition = "2021"
publish = false

[dependencies]
serde = { version = "=1.0.229", features = ["derive"] }
serde_json = "=1.0.154"
llvm-sys = { version = "=140.1.3", features = ["prefer-dynamic"] }
rustyline = "=9.1.2"
home = "=0.5.12"
backtrace = "=0.3.77"
