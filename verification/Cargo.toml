[package]
name = "ontocode_excel"
version = "0.1.0"
edition = "2021"
publish = false

[dependencies]
regex = "=1.13.1"
serde = { version = "=1.0.229", features = ["derive"] }
serde_json = "=1.0.154"
ovba = "=0.7.1"
zip = "=9.2.2"
quick-xml = "=0.42.0"
schemars = "=1.2.3"
async-trait = "=0.1.92"
cfb = "=0.10.0"
codepage = "=0.1.3"

[dev-dependencies]
tempfile = "=3.27.0"
