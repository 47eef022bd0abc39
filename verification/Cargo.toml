[package]
name = "amadeus-postgres"
version = "0.2.0"
edition = "2021"
publish = false

[dependencies]
bytes = "1"
futures = "0.3"
pin-project = "1"
postgres-types = "0.2"
serde = { version = "1", features = ["derive"] }
tokio = { version = "1", features = ["rt"] }
tokio-postgres = "0.7"
