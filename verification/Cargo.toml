[package]
name = "zabbix_sync"
version = "0.1.0"
edition = "2021"
publish = false

[dependencies]
chrono = "*"
rust_decimal = { version = "*", features = ["db-tokio-postgres"] }
influxdb = { version = "*", features = ["derive"] }
tokio = { version = "*", features = ["full"] }
tokio-postgres = "*"
toml = "*"
serde = { version = "*", features = ["derive"] }
