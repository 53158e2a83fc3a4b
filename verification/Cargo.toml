[package]
name = "toasty"
version = "0.1.0"
edition = "2021"
publish = false

[dependencies]
rand = "0.8"
anyhow = "1"
serde = { version = "1", features = ["derive"] }
toml = "0.8"
toml_edit = { version = "0.22", features = ["serde"] }
clap = { version = "4", features = ["derive"] }
console = "0.15"
dialoguer = "0.11"
proc-macro2 = "1"
quote = "1"
syn = "2"
aws-sdk-dynamodb = { version = "1", default-features = false }

[dev-dependencies]
toml = "0.8"
