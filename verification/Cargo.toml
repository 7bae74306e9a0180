[package]
name = "rta"
version = "0.1.0"
edition = "2021"
publish = false

[dependencies]
polars = { version = "*", default-features = false, features = ["csv", "parquet", "fmt"] }
clap = { version = "4", default-features = false, features = ["std", "help", "usage", "error-context"] }
plotters = { version = "0.3", default-features = false, features = ["bitmap_backend", "bitmap_encoder", "svg_backend", "line_series"] }
plotly = { version = "*", default-features = false }
