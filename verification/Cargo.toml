[package]
name = "gather"
version = "0.1.0"
edition = "2021"
publish = false

[dependencies]
blake = "*"
convert_case = "*"
xliff = "*"
hdk = "*"
hdi = "*"
serde = { version = "1", features = ["derive"] }
syn = { version = "2", features = ["full", "extra-traits"] }
quote = "1"
proc-macro2 = "1"
