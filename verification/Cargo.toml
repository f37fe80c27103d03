[package]
name = "mdbook-linkcheck"
version = "0.1.0"
edition = "2021"
publish = false

[dependencies]
memchr = "2"
pulldown-cmark = { version = "0.1", default-features = false }
url = "2"
mdbook = { version = "0.4", default-features = false }
reqwest = { version = "0.12", default-features = false, features = ["blocking"] }
serde = { version = "1", features = ["derive"] }
failure = "0.1"
log = "0.4"
