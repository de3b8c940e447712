[package]
name = "text_edit_core"
version = "0.1.0"
edition = "2021"

[dependencies]
anyhow = "=1.0.104"
reqwest = "=0.12.28"
serde_json = "=1.0.154"
smallvec = "=1.16.4"
tokio = { version = "=1.54.1", features = ["rt-multi-thread"] }
unicode-segmentation = "=1.13.3"
