[package]
name = "hagen"
version = "0.1.0"
edition = "2021"
publish = false

[dependencies]
url = "*"
jsonpath_lib = "*"
serde = { version = "*", features = ["derive"] }
serde_json = "*"
serde_yaml = "*"
handlebars = "*"
quick-xml = "*"
chrono = "*"
pulldown-cmark = "*"
globset = "*"
walkdir = "*"
structopt = "*"
