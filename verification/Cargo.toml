[package]
name = "codekb_ingest"
version = "0.1.0"
edition = "2021"
publish = false

[dependencies]
anyhow = "*"
calamine = "*"
docx-rs = "*"
globset = "*"
ignore = "*"
pdf-extract = "*"
serde_json = "*"
tracing = "*"
