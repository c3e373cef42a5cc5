[package]
name = "resvg_js"
version = "0.1.0"
edition = "2021"
publish = false

[dependencies]
usvg = "=0.37.0"
resvg = "=0.37.0"
roxmltree = "=0.19.0"
fontdb = "=0.16.2"
