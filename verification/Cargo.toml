[package]
name = "usehid"
version = "0.1.0"
edition = "2021"
publish = false

[dependencies]
base64 = "0.22"
png = "0.17"
serde = { version = "1", features = ["derive"] }
serde_json = "1"
thiserror = "1"
pyo3 = { version = "0.23", features = ["extension-module"] }
windows = { version = "0.58", features = ["Win32_Foundation", "Win32_Graphics_Gdi", "Win32_UI_Accessibility", "Win32_System_Com", "Win32_System_Variant", "Win32_UI_WindowsAndMessaging"] }
