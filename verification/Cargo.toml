[package]
name = "static_str_ops"
version = "0.1.0"
edition = "2021"
publish = false

[dependencies]
gensym = "*"
lazy_static = "1"
