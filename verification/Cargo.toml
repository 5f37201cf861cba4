[package]
name = "exokernel"
version = "0.1.0"
edition = "2021"
publish = false

[dependencies]
bootloader_api = "0.11"
lazy_static = { version = "1", features = ["spin_no_std"] }
linked_list_allocator = "0.10"
pc-keyboard = "0.7"
pic8259 = "0.11"
spin = "0.9"
uart_16550 = "0.3"
x86_64 = { version = "0.15", default-features = false, features = ["instructions"] }
