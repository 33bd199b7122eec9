[package]
name = "rs_ddraw"
version = "0.1.0"
edition = "2021"
publish = false

[dependencies]
windows = { version = "0.61", features = ["Win32_Foundation", "Win32_Graphics_DirectDraw", "Win32_Graphics_Gdi", "Win32_Graphics_OpenGL", "Win32_Graphics_Direct3D9", "Win32_System_LibraryLoader", "Win32_System_Threading", "Win32_System_WindowsProgramming", "Win32_System_Memory", "Win32_System_SystemServices", "Win32_System_Diagnostics_Debug", "Win32_UI_WindowsAndMessaging", "Win32_UI_Input_KeyboardAndMouse"] }
