[package]
name = "confluence_connect"
version = "0.1.0"
edition = "2021"
publish = false

[dependencies]
url = "2"
urlencoding = "2"
base64 = "0.22"
reqwest = { version = "0.12", default-features = false, features = ["json", "rustls-tls"] }
serde = { version = "1", features = ["derive"] }
serde_json = "1"
chrono = "0.4"
tokio = { version = "1", features = ["full"] }
rmcp = { version = "0.8", features = ["server", "macros", "transport-io"] }
anyhow = "1"
thiserror = "2"
sysinfo = "0.33"
tracing = "0.1"
tracing-subscriber = { version = "0.3", features = ["env-filter"] }
opener = "0.7"
arboard = { version = "3", default-features = false }
winapi = { version = "0.3", features = ["winhttp", "winbase", "errhandlingapi", "winuser"] }
