[package]
name = "fargate_stats_reporter"
version = "0.1.0"
edition = "2021"
publish = false

[dependencies]
args = "*"
chrono = { version = "*", default-features = false, features = ["std"] }
failure = "*"
getopts = "*"
log = "*"
reqwest = { version = "0.11", default-features = false, features = ["blocking", "json", "rustls-tls"] }
rusoto_cloudwatch = { version = "*", default-features = false, features = ["rustls"] }
rusoto_core = { version = "*", default-features = false, features = ["rustls"] }
serde_json = "*"
stderrlog = "*"
tokio = { version = "*", features = ["rt"] }
