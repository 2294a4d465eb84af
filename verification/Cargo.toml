[package]
name = "slightshot"
version = "0.1.0"
edition = "2021"
publish = false

[dependencies]
anyhow = "1"
arboard = "3"
ctrlc = "3"
fontdue = "0.9"
png = "*"
serde_json = "1"
softbuffer = "0.4"
tiny-skia = "0.11"
ureq = "3"
winit = "0.30"
windows = { version = "*", features = ["Win32_Foundation", "Win32_Graphics_Gdi", "Win32_Graphics_Dwm", "Win32_UI_WindowsAndMessaging", "Win32_UI_HiDpi", "Win32_UI_Input_KeyboardAndMouse"] }
