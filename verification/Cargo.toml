[package]
name = "geoip_country"
version = "0.1.0"
edition = "2021"
publish = false

[dependencies]
maxminddb = "=0.32.0"
lazy_static = "=1.5.1"
pg-extend = "=0.2.1"
pg-extern-attr = "=0.2.2"

[dev-dependencies]
ipnetwork = "=0.21.1"
