[package]
name = "skill_builder"
version = "0.1.0"
edition = "2021"
publish = false

[dependencies]
regex = "1"
serde = { version = "1", features = ["derive"] }
serde_json = "1"
tokio = { version = "1", features = ["full"] }
log = "0.4"
dirs = "*"
thiserror = "*"
rusqlite = { version = "*", features = ["bundled"] }
git2 = "*"
reqwest = { version = "*", features = ["json"] }
zip = "*"
