[package]
name = "telem-gen"
version = "0.1.0"
edition = "2021"
publish = false

[dependencies]
rand = "=0.8.8"
cot-proto = "=0.5.1"
quick-xml = { version = "=0.37.5", features = ["serialize"] }
thiserror = "=1.0.69"
tracing = "=0.1.44"
tracing-subscriber = "=0.3.23"

[dev-dependencies]
nom = "=7.1.3"
