[package]
name = "dami"
version = "0.1.0"
edition = "2021"
publish = false

[dependencies]
prettytable-rs = { version = "*", default-features = false }
rayon = "*"
regex = "*"
chrono = { version = "*", default-features = false, features = ["std"] }
ndarray = "0.16"
ndarray-stats = "0.6"
noisy_float = "0.2"
num-traits = "0.2"
serde = { version = "1", features = ["derive"] }
serde_json = "1"
lazy_static = "1"
plotly = "*"
calamine = "*"
lzma-rs = "*"
zip = { version = "*", default-features = false, features = ["deflate"] }
ureq = { version = "*", default-features = false }
url = "*"
