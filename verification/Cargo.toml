[package]
name = "curvefit"
version = "0.1.0"
edition = "2021"
publish = false

[dependencies]
rand = "*"
csv = "*"
serde = { version = "*", features = ["derive"] }
plotters = { version = "*", default-features = false, features = ["svg_backend", "line_series", "errorbar"] }
approx = "*"
