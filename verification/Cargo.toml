[package]
name = "itemviewer"
version = "0.1.0"
edition = "2021"
publish = false

[dependencies]
dirs = "=7.0.0"
egui = "=0.31.1"
egui-phosphor = { version = "=0.9.0", features = ["fill"] }
windows = { version = "=0.61.3", features = ["Win32_Foundation", "Win32_System_DataExchange", "Win32_System_Memory", "Win32_System_Ole", "Win32_UI_Shell"] }
