[package]
name = "zoog"
version = "0.1.0"
edition = "2021"
publish = false

[dependencies]
clack-extensions = { version = "=0.2.0", features = ["audio-ports", "clack-host", "log", "note-ports", "params", "preset-discovery", "timer"] }
clack-host = "=0.2.0"
cpal = "=0.17.1"
directories = "=6.0.0"
midir = "=0.10.4"
rtrb = "=0.3.6"
rusqlite = { version = "=0.37.0", features = ["bundled"] }
serde = { version = "=1.0.229", features = ["derive"] }
toml = "=0.9.12"
