[package]
name = "widget_containers"
version = "0.1.0"
edition = "2021"
publish = false

[dependencies]
resvg = "0.41"
