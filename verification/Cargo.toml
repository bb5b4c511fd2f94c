[package]
name = "settime"
version = "0.1.0"
edition = "2021"
publish = false

[dependencies]
native-tls = "0.2"
ureq = { version = "2", default-features = false, features = ["native-tls"] }
windows-sys = { version = "0.52", features = ["Win32_Foundation", "Win32_System_SystemInformation"] }
