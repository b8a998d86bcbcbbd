[package]
name = "ipmpsc"
version = "0.5.1"
edition = "2021"
publish = false

[dependencies]
anyhow = "1"
bincode = "1.3"
errno = "0.3"
libc = "0.2"
memmap = "0.7"
memmap2 = "0.9"
serde = { version = "1", features = ["derive"] }
serde_bytes = "0.11"
serde_derive = "1"
tempfile = "3"
thiserror = "1"
winapi = { version = "0.3", features = ["errhandlingapi", "handleapi", "minwindef", "synchapi", "winbase", "winerror", "winnt"] }
