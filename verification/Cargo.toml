[package]
name = "jelly"
version = "0.1.0"
edition = "2021"
publish = false

[dependencies]
markdown-it = { version = "*", default-features = false }
slug = "*"
titlecase = "*"
syntect = { version = "*", default-features = false, features = ["default-fancy"] }
gray_matter = "*"
serde = { version = "*", features = ["derive"] }
serde_yaml = "*"
serde_json = "*"
clap = { version = "*", features = ["derive"] }
handlebars = "*"
ammonia = "*"
tiny_http = "*"
notify = "*"
ws = "*"
mime_guess = "*"
tempfile = "*"
ctrlc = "*"
open = "*"
