[package]
name = "ioc_drivers"
version = "0.1.0"
edition = "2021"
publish = false

[dependencies]
log = "=0.4.35"
parking_lot = "=0.12.5"
thiserror = "=2.0.21"
epics-rs = { version = "=0.30.2", default-features = false, features = ["asyn"] }
asyn-rs = "=0.30.2"
