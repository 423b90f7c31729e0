[package]
name = "kakapo"
version = "0.1.0"
edition = "2021"
publish = false

[dependencies]
base64 = "0.13"
rand = "0.6"
argonautica = "0.2"
chrono = { version = "0.4", features = ["serde"] }
serde = { version = "1", features = ["derive"] }
serde_json = "1"
jsonwebtoken = "8"
diesel = { version = "1.4", features = ["postgres", "r2d2", "chrono", "serde_json"] }
pq-sys = "0.4"
actix = "0.13"
dotenv = "0.15"
num_cpus = "1"
cpython = "0.7"
