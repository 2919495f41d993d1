[package]
name = "rvsim"
version = "0.1.0"
edition = "2021"
publish = false

[dependencies]
object = { version = "*", default-features = false, features = ["elf", "read_core", "std"] }
xflags = "*"
thiserror = "*"
csv = "*"
plotters = { version = "*", default-features = false, features = ["svg_backend", "line_series"] }
