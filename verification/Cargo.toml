[package]
name = "lemmy_federate"
version = "0.19.4"
edition = "2021"
publish = false

[dependencies]
activitypub_federation = { version = "0.5", default-features = false, features = ["actix-web"] }
anyhow = "1"
chrono = { version = "0.4", default-features = false, features = ["now"] }
futures = "0.3"
once_cell = "1"
reqwest = { version = "0.11", default-features = false }
tokio = { version = "1", features = ["macros", "rt-multi-thread", "sync", "time"] }
tokio-util = "0.7"
tracing = "0.1"
