[package]
name = "typedown"
version = "0.1.0"
edition = "2021"
publish = false

[dependencies]
chumsky = "*"
ecow = "*"
miette = { version = "*", features = ["fancy"] }
ropey = "*"
thiserror = "*"
unscanny = "*"
constcat = "*"
zed_extension_api = "*"
