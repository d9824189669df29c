[package]
name = "dbus_udisks2"
version = "0.1.0"
edition = "2021"
publish = false

[dependencies]
dbus = "*"
futures-util = "*"
