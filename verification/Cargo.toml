[package]
name = "axkernel"
version = "0.1.0"
edition = "2021"
publish = false

[dependencies]
xmas-elf = "=0.9.1"
bytemuck = "1"
x86 = "=0.52.0"
x86_64 = { version = "=0.14.13", default-features = false, features = ["instructions"] }
memory_set = "=0.1.0"
axerrno = "=0.1.2"
crate_interface = "=0.1.4"
percpu = "=0.1.7"
kernel_guard = "=0.1.3"
aarch64-cpu = "=9.4.0"
tock-registers = "=0.8.1"
axconfig = "=0.2.2-preview.2"
