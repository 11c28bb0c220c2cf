[package]
name = "pkg_install_lint"
version = "0.1.0"
edition = "2021"
publish = false

[dependencies]
colored = "*"
ignore = "*"
walkdir = "*"
