[package]
name = "homeserver_auth"
version = "0.1.0"
edition = "2021"
publish = false

[dependencies]
argon2rs = "=0.2.5"
base64 = "=0.13.1"
bodyparser = "=0.8.0"
chrono = "=0.4.45"
diesel = { version = "=1.4.8", features = ["postgres"] }
iron = "=0.6.1"
macaroons = "=0.3.3"
persistent = "=0.4.0"
rand = "=0.4.6"
ruma-identifiers = "=0.14.1"
serde = { version = "=1.0.229", features = ["derive"] }
serde_json = "=1.0.154"
