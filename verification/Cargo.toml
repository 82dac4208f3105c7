[package]
name = "esp_embedded"
version = "0.1.0"
edition = "2021"
publish = false

[dependencies]
edge-dhcp = { version = "0.7", features = ["io"] }
edge-mdns = { version = "0.7", features = ["io"] }
edge-nal = "0.6"
edge-nal-embassy = "0.8"
embassy-executor = "0.9"
embassy-futures = "0.1"
embassy-net = { version = "=0.8.0", features = ["dhcpv4", "dhcpv4-hostname", "medium-ethernet", "tcp", "udp"] }
embassy-sync = "0.7"
embassy-time = { version = "=0.5.1", features = ["tick-hz-1_000_000"] }
embedded-storage = "0.3"
embedded-storage-async = "0.4"
esp-hal = { version = "=1.0.0", features = ["esp32c6", "unstable"] }
esp-radio = { version = "0.17", features = ["esp32c6", "wifi", "unstable", "smoltcp"] }
esp-storage = { version = "0.8", features = ["esp32c6"] }
heapless = { version = "=0.8.0", features = ["serde"] }
log = "0.4"
pastey = "0.2"
picoserve = { version = "0.18", features = ["embassy"] }
sequential-storage = { version = "7", features = ["heapless"] }
serde = { version = "1", default-features = false, features = ["derive"] }
sha2 = { version = "=0.10.9", default-features = false }
static_cell = "2"

[dev-dependencies]
embassy-time = { version = "=0.5.1", features = ["std"] }
