[package]
name = "conlang"
version = "0.1.0"
edition = "2021"
publish = false

[dependencies]
unicode-xid = "0.2"
