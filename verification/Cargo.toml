[package]
name = "asol_naki"
version = "0.1.0"
edition = "2021"
publish = false

[dependencies]
serde = { version = "1", features = ["derive"] }
serde_json = "1"
sysinfo = "0.33"
wmi = "0.14"
winreg = "0.52"
windows-sys = { version = "0.52", features = ["Win32_UI_Shell", "Win32_Foundation"] }
