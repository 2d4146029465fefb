[package]
name = "procnet"
version = "2.0.0"
edition = "2021"
publish = false

[dependencies]
png = "*"
rusqlite = { version = "0.37.0", features = ["bundled"] }
eframe = { version = "*", default-features = false, features = ["default_fonts", "glow", "x11"] }
egui_plot = "*"
ferrisetw = "1.2"
windows = { version = "0.57", features = ["Win32_Foundation", "Win32_System_Console", "Win32_NetworkManagement_IpHelper", "Win32_Networking_WinSock", "Win32_System_Diagnostics_ToolHelp", "Win32_System_Diagnostics_Etw", "Win32_System_Threading", "Win32_System_Time", "Win32_UI_Shell", "Win32_UI_WindowsAndMessaging", "Win32_Graphics_Gdi", "Win32_Storage_FileSystem"] }
