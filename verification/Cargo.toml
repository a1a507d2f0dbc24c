[package]
name = "graph_store"
version = "0.1.0"
edition = "2021"
publish = false

[dependencies]
async-trait = "=0.1.92"
hex = "=0.4.3"
rdf = "=0.1.4"
reqwest = { version = "=0.10.10", default-features = false, features = ["json"] }
serde = { version = "=1.0.229", features = ["derive"] }
sha2 = "=0.8.2"
typed-html = "=0.1.1"
url = "=2.5.8"
