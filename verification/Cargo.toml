[package]
name = "uefi_hid_core"
version = "0.1.0"
edition = "2021"
publish = false

[dependencies]
mu_pi = "=5.2.4"
mu_rust_helpers = "=2.0.0"
mu_uefi_boot_services = { version = "=2.0.0", features = ["global_allocator"] }
r-efi = "=5.3.0"

[dev-dependencies]
uuid = "=1.29.0"
