[package]
name = "reservation"
version = "0.1.0"
edition = "2021"
publish = false

[dependencies]
chrono = "0.4"
sqlx = { version = "0.8", default-features = false, features = ["postgres", "chrono", "uuid"] }
thiserror = "*"
async-trait = "*"

[dev-dependencies]
regex = "1"
