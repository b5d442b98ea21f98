[package]
name = "binoxxo_game"
version = "0.1.0"
edition = "2021"
publish = false

[dependencies]
binoxxo = "=0.5.0"
fluent-bundle = "=0.6.0"
seed = "=0.3.7"
