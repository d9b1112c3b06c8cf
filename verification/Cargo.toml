[package]
name = "command_core"
version = "0.1.0"
edition = "2021"
publish = false

[dependencies]
chrono = "*"
clearscreen = "*"
colored = "*"
enable-ansi-support = "*"
env_logger = "*"
humansize = "*"
log = "*"
whoami = "*"
