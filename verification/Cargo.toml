[package]
name = "journald_to_cloudwatch"
version = "0.1.0"
edition = "2021"
publish = false

[dependencies]
chrono = "0.4"
reqwest = "0.9"
rusoto_core = "0.42"
rusoto_ec2 = "0.42"
rusoto_logs = "0.42"
systemd = "0.5"
