[package]
name = "fortitude_webview"
version = "0.1.0"
edition = "2021"
publish = false

[dependencies]
futures = "0.3"
gtk4 = "*"
webkit6 = "*"
