[package]
name = "bola_api"
version = "0.1.0"
edition = "2021"
publish = false

[dependencies]
rand = "=0.8.8"
rustrict = "=0.7.39"
constant_time_eq = "=0.2.6"
regex = "=1.13.1"
bimap = "=0.6.3"
tokio = { version = "=1.54.1", features = ["full"] }
axum = { version = "=0.6.20", features = ["ws"] }
hyper = { version = "=0.14.32", features = ["full"] }
tower = "=0.4.13"
tower-http = { version = "=0.4.4", features = ["auth", "cors", "compression-full", "trace"] }
serde = { version = "=1.0.229", features = ["derive"] }
serde_json = "=1.0.154"
toml = "=0.7.8"
bincode = "=1.3.3"
log = "=0.4.35"
fern = "=0.6.2"
chrono = "=0.4.45"
clap = { version = "=4.6.7", features = ["cargo"] }
anyhow = "=1.0.104"
futures = "=0.3.34"
parking_lot = "=0.12.5"
aws-config = "=0.54.1"
aws-sdk-dynamodb = "=0.24.0"
aws-types = "=0.54.1"
openid = "=0.12.1"
tokio-native-tls = "=0.3.1"
interprocess = { version = "=1.2.1", features = ["tokio_support"] }
reqwest = "=0.11.27"
lers = "0.4"
