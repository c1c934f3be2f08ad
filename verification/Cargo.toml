[package]
name = "keypad"
version = "0.1.0"
edition = "2021"
publish = false

[dependencies]
serde = { version = "1", features = ["derive"] }
log = "0.4"
crossbeam-channel = "0.5"
windows = { version = "0.61", features = ["Win32_Foundation", "Win32_System_Registry", "Win32_System_Console", "Win32_System_Diagnostics_ToolHelp", "Win32_System_Threading", "Win32_UI_WindowsAndMessaging", "Win32_System_Com", "Win32_UI_Shell", "Win32_Graphics_Gdi", "Win32_Graphics_Dwm", "Win32_System_Time", "Win32_System_LibraryLoader"] }
