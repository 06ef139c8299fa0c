[package]
name = "rcad"
version = "0.1.0"
edition = "2021"
publish = false

[dependencies]
uuid = { version = "=1.29.0", features = ["v4"] }
indexmap = "=2.14.2"
serde = { version = "=1.0.229", features = ["derive"] }
serde_json = "=1.0.154"
tokio = { version = "=1.54.1", features = ["full"] }
axum = { version = "=0.7.9", features = ["ws", "multipart"] }
axum-extra = { version = "=0.9.6", features = ["multipart"] }
tower-http = { version = "=0.5.2", features = ["cors", "trace"] }
futures = "=0.3.34"
reqwest = { version = "=0.12.28", default-features = false, features = ["json", "stream", "rustls-tls"] }
rumqttc = "=0.24.0"
tracing = "=0.1.44"
tracing-subscriber = { version = "=0.3.23", features = ["env-filter"] }
thiserror = "=1.0.69"
log = "=0.4.35"
gltf = { version = "=1.4.1", default-features = false, features = ["utils", "names"] }
truck-stepio = "=0.3.0"
truck-meshalgo = "=0.4.0"
truck-polymesh = "=0.6.0"
truck-modeling = "=0.6.0"
truck-shapeops = "=0.4.0"
glam = "=0.34.2"
image = { version = "=0.25.10", default-features = false, features = ["png", "jpeg"] }
ruststep = "=0.4.0"
