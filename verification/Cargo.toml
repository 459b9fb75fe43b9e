[package]
name = "helix_view"
version = "0.1.0"
edition = "2021"
publish = false

[dependencies]
anyhow = "=1.0.104"
clipboard-win = "*"
crossterm = { version = "=0.29.0", features = ["event-stream"] }
devicons = "=0.6.13"
futures-util = "=0.3.34"
gix = { version = "=0.90.0", default-features = false, features = ["attributes", "sha1", "status"] }
imara-diff = "=0.2.0"
libc = "=0.2.191"
log = "=0.4.35"
notify = "=8.2.1"
ratatui = { version = "=0.30.2", default-features = false, features = ["crossterm", "underline-color"] }
serde = { version = "=1.0.229", features = ["derive"] }
serde_json = "=1.0.154"
signal-hook = "=0.3.18"
termini = "=1.0.0"
tokio = { version = "=1.54.1", features = ["rt", "rt-multi-thread", "sync", "time", "macros"] }
unicode-segmentation = "=1.13.3"
unicode-width = "=0.2.3"
