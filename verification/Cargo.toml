[package]
name = "fnaf_engine"
version = "0.1.0"
edition = "2021"
publish = false

[dependencies]
rand = "0.8"
serde_json = "1"
serde = { version = "1", features = ["derive"] }
chrono = "0.4"
tetra = "0.8"
mlua = { version = "0.9", features = ["lua54", "vendored"] }
libloading = "0.8"
find_folder = "0.3"
tokio = { version = "1", features = ["rt-multi-thread", "macros"] }

[dev-dependencies]
regex = "1"
