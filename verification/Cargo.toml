[package]
name = "windows_rust_counters"
version = "0.1.0"
edition = "2021"
publish = false

[dependencies]
widestring = "=1.2.1"
winapi = { version = "=0.3.9", features = ["minwindef", "winerror", "errhandlingapi", "winbase", "winnt", "winreg", "ntdef", "sysinfoapi", "winnls", "winuser"] }
log = "=0.4.35"
lazy_static = "=1.5.1"
argh = "=0.1.19"
ratatui = "=0.29.0"
figlet-rs = "=0.1.5"
serde_json = "=1.0.154"
reqwest = { version = "=0.12.28", default-features = false, features = ["blocking", "json"] }
RustyXML = "0.3"
