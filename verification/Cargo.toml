[package]
name = "screen_ghost"
version = "0.1.0"
edition = "2021"
publish = false

[dependencies]
log = "*"
flexi_logger = "*"
once_cell = "*"
serde = { version = "*", features = ["derive"] }
serde_json = "*"
toml = "*"
windows = { version = "*", features = [
    "Win32_Foundation",
    "Win32_Graphics_Direct3D",
    "Win32_Graphics_Direct3D11",
    "Win32_Graphics_Dxgi",
    "Win32_Graphics_Dxgi_Common",
    "Win32_Graphics_Gdi",
    "Win32_System_Com",
    "Win32_UI_HiDpi",
    "Win32_UI_WindowsAndMessaging",
] }
