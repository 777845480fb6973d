[package]
name = "win-night-shift"
version = "0.1.0"
edition = "2021"
publish = false

[dependencies]
tray-icon = "0.21.3"

[dependencies.windows]
version = "=0.61.3"
features = [
    "Foundation",
    "Graphics",
    "Win32_Foundation",
    "Win32_Graphics_Dwm",
    "Win32_Graphics_Gdi",
    "Win32_System_LibraryLoader",
    "Win32_System_Registry",
    "Win32_System_Threading",
    "Win32_UI_HiDpi",
    "Win32_UI_Shell",
    "Win32_UI_WindowsAndMessaging",
]
