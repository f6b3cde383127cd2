[package]
name = "codex_sidebar"
version = "0.1.0"
edition = "2021"
publish = false

[dependencies]
log = "0.4"
rusqlite = { version = "0.31", features = ["bundled"] }
rust_decimal = "1"
serde = { version = "1", features = ["derive"] }
serde_json = "1"
windows-sys = { version = "0.59", features = ["Win32_Foundation", "Win32_System_Diagnostics_ToolHelp", "Win32_System_Threading"] }
