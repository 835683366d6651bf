[package]
name = "drawio-lc"
version = "0.1.0"
edition = "2021"
publish = false

[dependencies]
quick-xml = "=0.37.5"
pulldown-cmark = { version = "=0.12.2", default-features = false, features = ["html"] }
base64 = "=0.22.1"
image = { version = "=0.25.10", default-features = false, features = ["png", "jpeg", "gif"] }
gif = "=0.13.3"
printpdf = { version = "=0.7.0", features = ["embedded_images"] }
ureq = { version = "=2.12.1", features = ["json", "native-tls"] }
native-tls = "=0.2.18"
serde = { version = "=1.0.229", features = ["derive"] }
serde_json = "=1.0.154"
serde_yaml = "=0.9.34"
sha2 = "=0.10.9"
hex = "=0.4.3"
