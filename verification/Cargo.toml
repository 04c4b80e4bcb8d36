[package]
name = "winlocale"
version = "0.1.0"
edition = "2021"
publish = false

[dependencies]
windows = { version = "=0.58.0", features = ["Win32_Globalization", "Win32_System_SystemServices", "System_UserProfile", "Foundation_Collections"] }
