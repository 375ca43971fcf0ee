[package]
name = "vfs_shim"
version = "0.1.0"
edition = "2021"
publish = false

[dependencies]
retour = "0.4.0-alpha.1"
windows-sys = { version = "0.59", features = [
    "Win32_Foundation",
    "Win32_Security",
    "Win32_Storage_FileSystem",
    "Win32_System_Diagnostics_Debug",
    "Win32_System_Kernel",
    "Win32_System_LibraryLoader",
    "Win32_System_Memory",
    "Win32_System_Threading",
] }
