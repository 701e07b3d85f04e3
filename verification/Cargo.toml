[package]
name = "ctc_notify"
version = "0.1.0"
edition = "2021"
publish = false

[dependencies]
ctrlc = "*"
dotenv = "*"
lettre = { version = "*", default-features = false, features = ["smtp-transport", "builder", "pool", "rustls-tls"] }
reqwest = { version = "*", default-features = false, features = ["blocking"] }
serde = { version = "*", features = ["derive"] }
serde_json = "*"
