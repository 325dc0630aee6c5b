[package]
name = "qubit_value"
version = "0.1.0"
edition = "2021"
publish = false

[dependencies]
qubit-datatype = { version = "=0.15.2", features = ["all"] }
qubit-budget = "=0.10.1"
qubit-json = "=0.12.1"
serde = { version = "=1.0.229", features = ["derive"] }
serde_json = "=1.0.154"
chrono = "=0.4.45"
url = "=2.5.8"
bigdecimal = "=0.4.11"
num-bigint = "=0.4.8"
thiserror = "=2.0.21"
