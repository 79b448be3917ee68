[package]
name = "waywallen"
version = "0.1.0"
edition = "2021"
publish = false

[dependencies]
anyhow = "1"
async-trait = "0.1"
env_logger = "0.11"
futures-util = "0.3"
glob = "0.3"
libc = "0.2"
log = "0.4"
mlua = { version = "=0.12.2", features = ["lua54", "vendored", "async", "send"] }
nix = { version = "0.29", features = ["fs", "socket", "uio"] }
prost = "0.14"
sea-orm = { version = "=1.1.20", default-features = false, features = ["macros", "runtime-tokio", "sqlx-sqlite"] }
sea-orm-migration = { version = "=1.1.20", default-features = false }
serde = { version = "1", features = ["derive"] }
serde_json = "1"
thiserror = "2"
tokio = { version = "1", features = ["fs", "io-util", "macros", "net", "process", "rt-multi-thread", "signal", "sync", "time"] }
tokio-tungstenite = "=0.30.0"
toml = "1"
uuid = { version = "=1.29.0", features = ["v4"] }
wayland-client = "0.31"
wayland-protocols = { version = "0.32", features = ["client", "staging", "unstable"] }
wayland-protocols-wlr = { version = "0.3", features = ["client"] }
zbus = { version = "=4.4.0", default-features = false, features = ["tokio"] }
