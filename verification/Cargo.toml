[package]
name = "desktop-environment"
version = "0.1.0"
edition = "2021"
publish = false

[dependencies]
anyhow = "=1.0.104"
raw-window-handle = "=0.6.2"
serde = { version = "=1.0.229", features = ["derive"] }
softbuffer = { version = "=0.4.8", default-features = false, features = ["x11", "x11-dlopen"] }
tracing = "=0.1.44"
tracing-subscriber = { version = "=0.3.23", features = ["env-filter"] }
windows = { version = "=0.58.0", features = [
    "Win32_Devices_FunctionDiscovery",
    "Win32_Devices_Properties",
    "Win32_Foundation",
    "Win32_Graphics_Direct3D",
    "Win32_Graphics_Direct3D11",
    "Win32_Graphics_Dxgi",
    "Win32_Graphics_Dxgi_Common",
    "Win32_Graphics_Gdi",
    "Win32_Media_Audio",
    "Win32_Security",
    "Win32_System_Com",
    "Win32_System_Com_StructuredStorage",
    "Win32_System_Variant",
    "Win32_UI_Input_KeyboardAndMouse",
    "Win32_UI_Shell_PropertiesSystem",
    "Win32_UI_WindowsAndMessaging",
] }
winit = { version = "=0.30.13", default-features = false, features = ["x11", "rwh_06"] }
