[package]
name = "qobine"
version = "0.1.0"
edition = "2021"
publish = false

[dependencies]
aes = "=0.9.4"
async-stream = "=0.3.6"
axum = "=0.8.9"
base64 = "=0.23.1"
bytes = "=1.12.1"
cbc = "=0.2.1"
ctr = "=0.10.1"
eventsource-stream = "=0.2.3"
futures = "=0.3.34"
hkdf = "=0.13.0"
hostname = "=0.4.2"
html-escape = "=0.3.0"
md5 = "=0.8.1"
qobuz-connect = "=0.1.3"
qonductor = "=0.1.0-alpha.5"
ratatui = "=0.30.2"
reqwest = { version = "=0.13.5", default-features = false, features = ["json", "stream"] }
serde = { version = "=1.0.229", features = ["derive"] }
serde_json = "=1.0.154"
sha2 = "=0.11.1"
stream-download = { version = "=0.24.5", default-features = false, features = ["reqwest"] }
time = { version = "=0.3.55", features = ["parsing"] }
tokio = { version = "=1.54.1", features = ["full"] }
tokio-stream = { version = "=0.1.19", features = ["sync"] }
tower-http = { version = "=0.7.1", features = ["limit"] }
tracing = "=0.1.44"
tui-big-text = "=0.8.10"
tui-input = "*"
unicode-width = "=0.2.3"
uuid = { version = "=1.29.0", features = ["v5"] }
