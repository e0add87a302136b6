[package]
name = "profile_core"
version = "0.1.0"
edition = "2021"
publish = false

[dependencies]
debugid = "=0.8.0"
which = "=8.0.6"
winver = "=1.0.0"
windows = { version = "=0.59.0", features = ["Win32_Foundation", "Win32_System_Diagnostics_Etw"] }
