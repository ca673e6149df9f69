[package]
name = "deck_of_cards_simulator_backend"
version = "0.1.0"
edition = "2021"
publish = false

[dependencies]
rand = "*"
uuid = { version = "*", features = ["v4"] }
serde = { version = "*", features = ["derive"] }
serde_json = "*"
futures = "*"
async-std = "*"
async-tungstenite = { version = "*", features = ["async-std-runtime"] }
eyre = "*"
