[package]
name = "yumi_wini"
version = "0.1.0"
edition = "2021"
publish = false

[dependencies]
log = "0.4"
tray-icon = { version = "0.21", default-features = false }
windows = { version = "0.61", features = ["Win32_Foundation", "Win32_System_Console", "Win32_System_Registry", "Win32_System_Threading", "Win32_UI_Shell", "Win32_UI_WindowsAndMessaging"] }
