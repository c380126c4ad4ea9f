[package]
name = "chat_relay"
version = "0.1.0"
edition = "2021"
publish = false

[dependencies]
chrono = "0.4"
tokio = { version = "1", features = ["rt-multi-thread", "macros", "sync", "time"] }
google-youtube3 = "*"
hyper = "*"
hyper-rustls = "*"
yup-oauth2 = "*"
diesel = { version = "*", features = ["postgres", "r2d2"] }
r2d2 = "*"
dotenv = "*"
fern = { version = "*", features = ["colored"] }
log = "*"
