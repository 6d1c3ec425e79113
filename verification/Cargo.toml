[package]
name = "postgres_money"
version = "0.3.0"
edition = "2021"
publish = false

[dependencies]
byteorder = "1"
bytes = "1"
postgres-types = "*"
serde = { version = "1", features = ["derive"] }

[dev-dependencies]
regex = "1"
