[package]
name = "juno"
version = "0.1.0"
edition = "2021"
publish = false

[dependencies]
actix = "=0.7.9"
actix-web = { version = "=0.7.19", default-features = false }
bytes = "=0.4.12"
diesel = { version = "=1.4.8", default-features = false, features = ["postgres", "uuid", "network-address", "r2d2"] }
dotenv = "=0.13.0"
env_logger = "=0.5.13"
futures = "=0.1.31"
ipnetwork = "=0.18.0"
r2d2 = "=0.8.10"
serde = "=1.0.229"
serde_derive = "=1.0.229"
tera = "=0.11.20"
uuid = { version = "=0.6.5", features = ["v4", "serde"] }
