[package]
name = "rubiks_cube_simulator"
version = "0.1.0"
edition = "2021"
publish = false

[dependencies]
serde_json = "1"
ratatui = "0.29"
