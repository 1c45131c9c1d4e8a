[package]
name = "juniper"
version = "0.1.0"
edition = "2021"
publish = false

[dependencies]
arcstr = "=1.2.0"
bson = "=2.15.0"
compact_str = "=0.10.0"
indexmap = "2"
time = { version = "=0.3.55", features = ["parsing", "formatting"] }
