[package]
name = "neural_os"
version = "0.1.0"
edition = "2021"
publish = false
