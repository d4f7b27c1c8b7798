[package]
name = "jsonview"
version = "0.1.0"
edition = "2021"
publish = false

[dependencies]
serde_json = "1"
tui = "0.19"
crossterm = "0.25"
emoji = "*"
clipboard = "*"
