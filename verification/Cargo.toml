[package]
name = "sneky_fox"
version = "0.1.0"
edition = "2021"
publish = false
