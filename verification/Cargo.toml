[package]
name = "preprompter"
version = "0.1.0"
edition = "2021"
publish = false

[dependencies]
chrono = "*"
anyhow = "*"
tokio = { version = "*", features = ["rt-multi-thread", "time", "sync", "macros"] }
serde = { version = "*", features = ["derive"] }
serde_json = "*"
toml = "*"
dirs = "*"
tracing = "*"
tracing-subscriber = { version = "*", features = ["env-filter"] }
aws-config = "*"
aws-sdk-s3 = "*"
x11rb = { version = "*", features = ["randr", "screensaver"] }
image = { version = "*", default-features = false, features = ["jpeg"] }
