[package]
name = "winebasin"
version = "0.1.0"
edition = "2021"
publish = false

[dependencies]
aargvark = "*"
command-fds = "*"
defer = "*"
directories = "*"
format-bytes = "*"
loga = "*"
os_pipe = "*"
serde = { version = "1", features = ["derive"] }
serde_json = "1"
shlex = "1"
