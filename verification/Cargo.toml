[package]
name = "filter_skimverify"
version = "0.1.0"
edition = "2021"
publish = false

[dependencies]
mail-auth = "=0.7.5"
clap = { version = "=4.6.7", features = ["derive"] }
tokio = { version = "=1.54.1", features = ["rt"] }
tracing = "=0.1.44"
tracing-subscriber = "=0.3.23"
