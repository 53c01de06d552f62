[package]
name = "servo_reg"
version = "0.1.0"
edition = "2021"
publish = false

[dependencies]
color = "=0.3.3"
defmt = "=1.2.0"
defmt-rtt = "=1.3.1"
embassy-executor = { version = "=0.10.0", features = ["platform-std", "executor-thread"] }
embassy-futures = "=0.1.2"
embassy-rp = { version = "=0.10.0", features = ["rp235xa", "time-driver", "critical-section-impl", "binary-info", "_test"] }
embassy-sync = "=0.8.0"
embassy-time = { version = "=0.5.1", features = ["tick-hz-1_000_000"] }
embedded-hal-bus = "=0.3.0"
fixed = "=1.31.0"
libm = "=0.2.16"
panic-probe = "=1.0.0"
postcard = "=1.1.3"
postcard-bindgen = { version = "=0.9.1", features = ["generating"] }
serde = { version = "=1.0.229", default-features = false, features = ["derive"] }
w5500-hl = "=0.12.0"
w5500-ll = { version = "=0.13.0", features = ["eh1"] }
