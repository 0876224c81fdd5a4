[package]
name = "axp"
version = "0.0.0"
edition = "2021"
publish = false

[dependencies]
async-stream = "=0.3.6"
axum = "=0.8.9"
base64 = "=0.22.1"
bytes = "=1.12.1"
clap = { version = "=4.6.7", features = ["derive"] }
getrandom = "=0.2.17"
landlock = "=0.4.7"
libc = "=0.2.191"
reqwest = { version = "=0.12.28", default-features = false, features = ["json", "stream"] }
seccompiler = "=0.5.0"
serde = { version = "=1.0.229", features = ["derive"] }
serde_json = "=1.0.154"
tempfile = "=3.27.0"
thiserror = "=2.0.21"
tokio = { version = "=1.54.1", features = ["full"] }
wasmtime = { version = "=46.0.3", default-features = false, features = ["std", "runtime", "cranelift", "component-model", "wat"] }
