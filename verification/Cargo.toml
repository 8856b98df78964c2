[package]
name = "crowdmark"
version = "0.1.0"
edition = "2021"
publish = false

[dependencies]
uuid = { version = "=1.27.0", features = ["v4"] }
chrono = "=0.4.45"
reqwest = { version = "=0.13.5", default-features = false, features = ["json", "form", "multipart", "cookies"] }
tokio = { version = "=1.53.2", features = ["macros", "rt-multi-thread"] }
serde = { version = "=1.0.229", features = ["derive"] }
serde_json = "=1.0.151"
clap = { version = "=4.6.7", features = ["derive", "env"] }
thiserror = "=2.0.21"
comfy-table = "=8.0.1"
rpassword = "=7.5.4"
whoami = "=2.1.3"
hayro = "=0.8.0"
hayro-interpret = "=0.8.0"
jpeg-encoder = "=0.7.1"
