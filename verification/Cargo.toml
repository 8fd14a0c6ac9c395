[package]
name = "openssl_build"
version = "0.1.0"
edition = "2021"
publish = false

[dependencies]
autocfg = "1"
cc = "1"
libc = "0.2"
pkg-config = "0.3"
vcpkg = "0.2"
