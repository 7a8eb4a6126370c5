[package]
name = "wlrix-settings-daemon"
version = "0.1.0"
edition = "2021"
publish = false

[dependencies]
libc = "=0.2.191"
rustix = { version = "=1.1.6", features = ["fs", "event"] }
serde = "=1.0.229"
toml_edit = "=0.25.17"
tracing = "=0.1.44"
tracing-subscriber = { version = "=0.3.23", features = ["env-filter", "fmt"] }
zbus = "=5.19.0"

[dev-dependencies]
toml = "=1.1.8"
