[package]
name = "rust_maphf_sandbox"
version = "0.1.0"
edition = "2021"
publish = false

[dependencies]
hftbacktest = { version = "0.9.4", default-features = false, features = ["backtest"] }
market-data-source = "*"
rand = "0.8"
rust_decimal = "1"
zip = { version = "9.2.2", default-features = false, features = ["deflate"] }
