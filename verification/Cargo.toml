[package]
name = "ballbreaker"
version = "0.1.0"
edition = "2021"
publish = false

[dependencies]
rusqlite = { version = "=0.40.2", features = ["bundled"] }
chrono = "=0.4.45"
anyhow = "=1.0.104"
tokio = { version = "=1.53.2", features = ["rt-multi-thread", "macros", "sync", "time"] }
teloxide = { version = "=0.17.0", features = ["macros"] }
gcal_rs = "=0.1.7"
takecell = "=0.1.1"
