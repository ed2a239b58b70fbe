[package]
name = "diff-libraries"
version = "0.1.0"
edition = "2021"
publish = false

[dependencies]
tera = { version = "1", default-features = false }
gerrit-grr = "*"
