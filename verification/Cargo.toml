[package]
name = "onager"
version = "0.1.0"
edition = "2021"
publish = false

[dependencies]
graphina = { version = "=0.3.0-alpha.5", features = ["all"] }
once_cell = "=1.21.4"
ordered-float = "=5.5.0"
parking_lot = "=0.13.0"
serde_json = "=1.0.154"
thiserror = "=2.0.21"
