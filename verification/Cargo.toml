[package]
name = "oss_share"
version = "0.1.0"
edition = "2021"
publish = false

[dependencies]
ali-oss-rs = "*"
base64 = "0.22"
serde = { version = "1", features = ["derive"] }
serde_json = "1"
toml = "*"
dirs = "*"
arboard = { version = "*", default-features = false }
windows = { version = "0.58", features = ["implement", "Win32_Foundation", "Win32_Security_Cryptography", "Win32_Storage_FileSystem", "Win32_System_Pipes", "Win32_System_Threading", "Win32_System_Com", "Win32_UI_Shell", "Win32_System_Registry", "Win32_System_LibraryLoader"] }
