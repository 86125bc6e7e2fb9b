[package]
name = "exceltocsv"
version = "0.1.0"
edition = "2021"
publish = false

[dependencies]
anyhow = "1"
calamine = "*"
clap = { version = "4", features = ["derive"] }
csv = "1"

[dev-dependencies]
rust_xlsxwriter = "*"
tempfile = "3"
