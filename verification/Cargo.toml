[package]
name = "slide_show"
version = "0.1.0"
edition = "2021"
publish = false

[dependencies]
dotenvy = "0.15"
glob = "0.3"
image = { version = "0.25", default-features = false, features = ["jpeg", "png"] }
log = "0.4"
minifb = "*"
rand = "0.9"
rayon = "1"
simple_logger = "*"
