[package]
name = "client_shell"
version = "0.1.0"
edition = "2021"
publish = false

[dependencies]
anyhow = "1"
chrono = "0.4"
hex = "0.4"
reqwest = { version = "0.11", default-features = false, features = ["blocking"] }
rpassword = "5"
rustyline = "9"
structopt = "0.3"
