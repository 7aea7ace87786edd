[package]
name = "vrclipboard-ime"
version = "0.1.0"
edition = "2021"
publish = false

[dependencies]
anyhow = "=1.0.104"
calc = "=0.4.0"
chrono = "=0.4.45"
regex = "=1.13.1"
rosc = "=0.11.4"
serde = { version = "=1.0.229", features = ["derive"] }
serde_derive = "=1.0.229"
serde_yaml = "=0.9.34"
platform-dirs = "=0.3.0"
clipboard = "=0.5.0"
clipboard-master = "=4.1.0"
windows-core = "=0.58.0"
windows = { version = "=0.58.0", features = ["Win32_Foundation", "Win32_System_Com", "Win32_System_DataExchange", "Win32_UI_Input_Ime", "Win32_UI_Input_KeyboardAndMouse", "Win32_UI_TextServices", "Win32_UI_WindowsAndMessaging"] }
