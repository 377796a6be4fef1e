[package]
name = "wlm"
version = "0.4.0"
edition = "2021"
publish = false

[dependencies]
regex = "=1.13.1"
clap = "=4.6.7"
config = { version = "=0.15.27", default-features = false, features = ["yaml"] }
cor-args = { version = "=0.2.0", features = ["clap"] }
directories = "=6.0.0"
env_logger = "=0.11.11"
log = "=0.4.34"
prettytable-rs = "=0.10.0"
serde = { version = "=1.0.229", features = ["derive"] }
serde_json = "=1.0.154"
serde_yaml = "=0.9.34"
winapi = { version = "=0.3.9", features = ["winuser", "windef", "minwindef", "ntdef", "dwmapi", "handleapi", "processthreadsapi", "psapi", "winnt", "errhandlingapi", "winbase"] }
x11 = { version = "=2.21.0", features = ["xlib"] }
