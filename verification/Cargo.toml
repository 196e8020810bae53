[package]
name = "cribbage_server"
version = "0.1.0"
edition = "2021"
publish = false

[dependencies]
uuid = { version = "1", features = ["v4", "v7", "serde"] }
serde = { version = "1", features = ["derive"] }
serde_json = "1"
thiserror = "2"
strum = { version = "*", features = ["derive"] }
chrono = { version = "0.4", features = ["serde"] }
sqlx = { version = "0.8", default-features = false, features = ["postgres", "uuid", "chrono", "json", "runtime-tokio", "derive", "migrate"] }
cqrs-es = "*"
eventsourced = "*"
tracing = "0.1"
itertools = "*"
