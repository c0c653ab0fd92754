[package]
name = "access_controller"
version = "0.1.0"
edition = "2021"
publish = false

[dependencies]
md5 = "=0.8.1"
heapless = "=0.7.17"
postcard = "=1.1.3"
serde = { version = "=1.0.229", default-features = false, features = ["derive"] }
embassy-sync = "=0.6.2"
embassy-futures = "=0.1.2"
embassy-time = "=0.4.0"
embassy-executor = { version = "=0.7.0", features = ["arch-std", "executor-thread"] }
embassy-net = { version = "=0.6.0", features = ["tcp", "dns", "dhcpv4", "proto-ipv4", "medium-ethernet"] }
embassy-rp = { version = "=0.3.1", features = ["rp2040"] }
cyw43 = "=0.3.0"
cyw43-pio = "=0.3.0"
embedded-hal = "=1.0.0"
embedded-hal-bus = "=0.3.0"
embedded-io-async = "=0.6.1"
embedded-storage = "=0.3.2"
format_no_std = "=1.2.0"
ekv = "=1.0.0"
reqwless = "=0.13.0"
mfrc522 = "=0.8.0"
rand = { version = "=0.8.5", default-features = false }
static_cell = "=2.1.1"
defmt = "=1.2.0"
defmt-rtt = "=1.3.1"
panic-probe = "=1.0.0"
assign-resources = "=0.4.1"
w25q32jv = "=0.5.1"
