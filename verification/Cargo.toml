[package]
name = "genie"
version = "0.2.4"
edition = "2021"
publish = false

[dependencies]
anyhow = "1"
clap = { version = "4", default-features = false, features = ["std", "derive", "help", "usage", "error-context"] }
hf-hub = { version = "0.4", default-features = false, features = ["ureq"] }
lbug = { version = "0.17.0", default-features = false }
serde = { version = "1", features = ["derive"] }
serde_json = "1"
sha2 = "0.10"
ureq = "2"
