[package]
name = "printctl"
version = "0.1.0"
edition = "2021"
publish = false

[dependencies]
uuid = { version = "=1.27.0", features = ["v4"] }
chrono = "=0.4.45"
serialport = { version = "=4.10.1", default-features = false }
serial_enumerator = "=0.3.1"
serial = "=0.4.0"
gethostname = "=1.1.0"
socket2 = "=0.6.5"
simple-mdns = { version = "=0.7.0", features = ["async-tokio"] }
tokio = { version = "=1.53.2", features = ["full"] }
tokio-serial = "=5.5.0"
