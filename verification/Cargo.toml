[package]
name = "bgm_rename_cuby"
version = "0.1.0"
edition = "2021"
publish = false

[dependencies]
anitomy = "*"
miniserde = "*"
minreq = { version = "2", features = ["https"] }
native-tls = "*"
fltk = "*"
windows-sys = { version = "*", features = ["Win32_Foundation", "Win32_Networking_WinHttp", "Win32_System_Registry", "Win32_UI_Shell"] }
winreg = "*"
rust-embed = "*"
webbrowser = "*"
clap = { version = "4", features = ["derive"] }
