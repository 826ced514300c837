[package]
name = "train_seating"
version = "0.1.0"
edition = "2021"
publish = false

[dependencies]
rand = "0.8"
dioxus = { version = "0.6", default-features = false, features = ["macro", "html", "signals", "hooks", "launch", "router"] }
dioxus-logger = "0.6"
