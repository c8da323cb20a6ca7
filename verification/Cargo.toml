[package]
name = "world_dispatcher"
version = "0.1.0"
edition = "2021"
publish = false

[dependencies]
atomic_refcell_try = "*"
downcast-rs = "*"
rayon = "*"
