[package]
name = "correlation"
version = "0.1.0"
edition = "2021"
publish = false

[dependencies]
log = "0.4"
serde_json = "1"
serde_yaml = "0.9"
syslog-ng-common = "*"
uuid = { version = "1", features = ["v4"] }
