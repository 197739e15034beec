[package]
name = "cognitive_core"
version = "0.1.0"
edition = "2021"
publish = false

[dependencies]
serde = { version = "1", features = ["derive"] }
serde_json = "1"
tokio = { version = "1", features = ["rt-multi-thread", "macros", "sync", "time"] }
rusqlite = { version = "*", features = ["bundled"] }
bytemuck = "1"
fastembed = { version = "*", default-features = false }
llama-cpp-2 = "*"
