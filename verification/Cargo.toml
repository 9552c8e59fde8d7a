[package]
name = "riot_sys_build"
version = "0.1.0"
edition = "2021"
publish = false

[dependencies]
shlex = "=1.3.0"
regex = "=1.13.1"
serde = { version = "=1.0.229", features = ["derive"] }
serde_json = "=1.0.154"
bindgen = "=0.69.5"
portable-atomic = "=1.15.0"
critical-section = { version = "=1.2.0", features = ["restore-state-bool"] }
