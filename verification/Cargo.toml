[package]
name = "pg_access"
version = "0.1.0"
edition = "2021"
publish = false

[dependencies]
serde = { version = "=1.0.229", features = ["derive"] }
pgrx = "=0.16.1"
