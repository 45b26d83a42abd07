[package]
name = "veiltype"
version = "0.1.0"
edition = "2021"
publish = false

[dependencies]
anyhow = "1"
arboard = { version = "3", default-features = false }
base64 = "0.22"
clipboard-win = "5"
crossterm = "0.28"
ratatui = "0.29"
syntect = { version = "5", default-features = false, features = ["default-fancy"] }
