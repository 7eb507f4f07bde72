[package]
name = "fwdslash"
version = "0.0.4"
edition = "2021"
publish = false

[dependencies]
sha2 = "0.11"
windows-registry = "0.6"
windows-core = "0.62"
windows-future = "0.3"
windows-collections = "0.3"
windows-reactor = "0.100"

[dependencies.windows-sys]
version = "0.61"
features = [
    "Win32_Foundation",
    "Win32_Networking_WinHttp",
    "Win32_Security",
    "Win32_Security_WinTrust",
    "Win32_Security_Cryptography",
    "Win32_Security_Cryptography_Catalog",
    "Win32_Security_Cryptography_Sip",
    "Win32_Storage_FileSystem",
    "Win32_Storage_Packaging_Appx",
    "Win32_System_Com",
    "Win32_System_IO",
    "Win32_System_LibraryLoader",
    "Win32_System_Registry",
    "Win32_System_Services",
    "Win32_System_SystemInformation",
    "Win32_System_Threading",
    "Win32_UI_Shell",
    "Win32_UI_Shell_Common",
    "Win32_UI_WindowsAndMessaging",
    "Win32_Graphics_Gdi",
]

[dependencies.windows]
version = "0.62"
features = [
    "ApplicationModel",
    "Foundation",
    "Foundation_Collections",
    "Networking_Connectivity",
    "Services_Store",
    "Win32_Storage_Packaging_Appx",
    "Win32_System_Com",
    "Win32_UI_Shell",
]
