[package]
name = "printlink"
version = "0.1.0"
edition = "2021"
publish = false

[dependencies]
serde = { version = "1", features = ["derive"] }
serde_json = "1"
lazy_static = "1"
log = "0.4"
simplelog = "0.12"
windows = { version = "0.58", features = ["Win32_Foundation", "Win32_Security", "Win32_Security_Credentials", "Win32_Graphics_Gdi", "Win32_Graphics_Printing", "Win32_UI_Shell", "Win32_UI_WindowsAndMessaging", "Win32_NetworkManagement_WNet"] }
