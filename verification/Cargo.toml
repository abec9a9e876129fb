[package]
name = "polyp_cli_client"
version = "0.1.0"
edition = "2021"
publish = false

[dependencies]
polyp = "*"
crossterm = "*"
anyhow = "*"
