[package]
name = "agent-terminal"
version = "0.1.0"
edition = "2021"
publish = false

[dependencies]
ring = "0.17"
flume = "0.11"
interprocess = "2"
directories = "*"
ctrlc = "3"
sysinfo = "*"
portable-pty = "0.9"
libc = "0.2"
ksni = { version = "*", features = ["blocking"] }
