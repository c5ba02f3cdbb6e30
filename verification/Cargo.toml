[package]
name = "lp_diff"
version = "0.1.0"
edition = "2021"
publish = false

[dependencies]
regex = "1"
frizbee = "*"
unicode-width = "*"
lp_parser_rs = "*"
highs = "*"
highs-sys = "*"
ratatui = "*"
crossterm = "*"
tui-input = "*"
clap = { version = "4", features = ["derive"] }
csv = "1"
arboard = { version = "*", default-features = false }
libc = "0.2"
