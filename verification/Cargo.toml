[package]
name = "starry_syscalls"
version = "0.1.0"
edition = "2021"
publish = false

[dependencies]
axerrno = "*"
linux-raw-sys = { version = "*", default-features = false, features = ["general", "ioctl", "net", "prctl", "system", "no_std"] }
syscalls = { version = "*", default-features = false }
bitflags = "2"
lazy_static = "*"
axpoll = "*"
axio = "*"
starry-vm = "*"
axfs-ng-vfs = "*"
riscv = "*"
