[package]
name = "expedition"
version = "0.1.0"
edition = "2021"
publish = false

[dependencies]
geo = "=0.33.1"
geo-types = "=0.7.20"
geojson = "=1.0.0"
gpx = "=0.10.0"
serde = { version = "=1.0.229", features = ["derive"] }
serde_json = "=1.0.151"
axum = { version = "=0.8.9", features = ["multipart"] }
tokio = { version = "=1.53.2", features = ["full"] }
reqwest = { version = "=0.13.5", features = ["json"] }
futures = "=0.3.34"
tower-http = { version = "=0.6.11", features = ["cors"] }
tracing = "=0.1.44"
tracing-subscriber = "=0.3.23"
color-eyre = "=0.6.5"
bigdecimal = { version = "=0.4.11", features = ["serde"] }
google_maps = "=3.10.0"
