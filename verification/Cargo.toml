[package]
name = "termvol"
version = "0.1.0"
edition = "2021"
publish = false

[dependencies]
futures = "0.3"
nalgebra = "0.33"
plotters = "0.3"
rand = "0.9"
reqwest = { version = "0.12", features = ["json"] }
scraper = "*"
serde_json = "1"
statrs = "0.18"
tokio = { version = "1", features = ["macros", "rt-multi-thread"] }
