[package]
name = "leeklaunch"
version = "0.1.0"
edition = "2021"
publish = false

[dependencies]
clap = { version = "4", features = ["derive"] }
config = { version = "*", default-features = false, features = ["json"] }
directories = "*"
reqwest = { version = "0.12", features = ["json"] }
serde = { version = "1", features = ["derive"] }
serde_json = "1"
tokio = { version = "1", features = ["macros", "rt-multi-thread"] }
windows-registry = "*"
zip = { version = "2", default-features = false, features = ["deflate"] }
