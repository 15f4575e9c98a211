[package]
name = "hakuro"
version = "0.1.0"
edition = "2021"
publish = false

[dependencies]
base64 = "=0.22.1"
caseless = "=0.2.2"
ferrous-opencc = "=0.4.0"
html-escape = "=0.2.15"
rand = "=0.9.5"
regex = "=1.13.1"
reqwest = { version = "=0.12.28", default-features = false, features = ["json", "rustls-tls"] }
roxmltree = "=0.21.2"
rusqlite = { version = "=0.41.1", features = ["bundled"] }
serde = { version = "=1.0.229", features = ["derive"] }
serde_json = "=1.0.154"
sha2 = "=0.10.9"
thiserror = "=2.0.21"
tokio = { version = "=1.54.1", features = ["full"] }
unicode-normalization = "=0.1.26"
urlencoding = "=2.1.3"
windows = { version = "=0.62.2", features = ["Foundation", "Media_Control", "Storage_Streams", "Win32_Foundation", "Win32_Security_Cryptography", "Win32_System_WinRT"] }
