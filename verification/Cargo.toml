[package]
name = "hddllfrt"
version = "0.1.0"
edition = "2021"
publish = false

[dependencies]
anyhow = "=1.0.104"
console = "=0.15.11"
dialoguer = "=0.11.0"
env_logger = "=0.11.11"
indicatif = "=0.17.11"
libc = "=0.2.191"
log = "=0.4.35"
plist = "=1.10.3"
widestring = "=1.2.1"
windows = { version = "0.58", features = ["Win32_Foundation", "Win32_Security", "Win32_Storage_FileSystem", "Win32_System_IO", "Win32_System_Ioctl"] }
