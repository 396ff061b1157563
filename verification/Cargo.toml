[package]
name = "nvidia_migmanager"
version = "0.1.0"
edition = "2021"
publish = false

[dependencies]
argh = "0.1"
log = "0.4"
regex = "1"
serde = { version = "1", features = ["derive"] }
simplelog = "0.12"
snafu = "0.8"
toml = "0.8"
