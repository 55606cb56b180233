[package]
name = "eml_renderer"
version = "0.1.0"
edition = "2021"
publish = false

[dependencies]
anyhow = "=1.0.104"
axum = { version = "=0.6.20", features = ["ws", "multipart"] }
axum_typed_multipart = "=0.10.2"
chrono = "=0.4.45"
image = { version = "=0.24.9", default-features = false, features = ["jpeg"] }
itertools = "=0.12.1"
nanoid = "=0.4.0"
serde = { version = "=1.0.229", features = ["derive"] }
serde_json = "=1.0.154"
tokio = { version = "=1.54.1", features = ["full"] }
tower-http = { version = "=0.4.4", features = ["cors", "trace"] }
tracing = "=0.1.44"
tracing-subscriber = { version = "=0.3.23", features = ["env-filter"] }
uiautomation = "=0.7.6"
win-screenshot = ">=4.0.3, <4.0.8"
windows = { version = "0.52", features = ["implement", "Win32_Foundation", "Win32_System_Com", "Win32_System_Ole", "Win32_System_Variant", "Win32_UI_Accessibility", "Win32_UI_HiDpi"] }
windows-implement = "0.52"
