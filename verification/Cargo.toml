[package]
name = "conf"
version = "0.1.0"
edition = "2021"
publish = false

[dependencies]
anstyle = "1"
chrono = { version = "0.4", default-features = false, features = ["std"] }
clap = { version = "4", features = ["string"] }
clap_complete = "4"
clap_lex = "0.7"
go-parse-duration = "0.1"
heck = "0.5"
serde = "1"
zeroize = "1"
