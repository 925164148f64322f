[package]
name = "brainfreak"
version = "0.1.0"
edition = "2021"
publish = false

[dependencies]
clap = { version = "4", features = ["derive"] }
cranelift = "0.119"
cranelift-module = "0.119"
cranelift-native = "0.119"
cranelift-object = "0.119"
