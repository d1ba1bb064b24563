[package]
name = "loam"
version = "0.1.0"
edition = "2021"
publish = false

[dependencies]
cargo_metadata = "*"
clap = { version = "*", features = ["derive", "env"] }
hex = "*"
ignore = "*"
notify = "*"
pathdiff = "*"
serde = { version = "*", features = ["derive"] }
serde_json = "*"
sha2 = "*"
shlex = "*"
stellar-strkey = "*"
symlink = "*"
tokio = { version = "*", features = ["sync", "time", "signal", "macros", "rt-multi-thread"] }
toml = { version = "*", features = ["preserve_order"] }
