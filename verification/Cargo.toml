[package]
name = "exif_rename"
version = "0.1.0"
edition = "2021"
publish = false

[dependencies]
chrono = "0.4"
clap = { version = "4", features = ["derive"] }
glob = "0.3"
handlebars = "*"
handlebars_misc_helpers = { version = "*", default-features = false, features = ["string", "regex"] }
hex = "0.4"
kamadak-exif = "*"
log = "0.4"
log4rs = "1"
pathdiff = "0.2"
regex = "1"
same-file = "1"
serde_json = "1"
sha1 = "0.10"
