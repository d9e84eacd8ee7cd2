[package]
name = "chess_rules"
version = "0.1.0"
edition = "2021"
publish = false

[dependencies]
macroquad = "=0.3.26"
