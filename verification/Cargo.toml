[package]
name = "dicom_uploader"
version = "0.1.0"
edition = "2021"
publish = false

[dependencies]
indicatif = "0.17"
rayon = "1"
reqwest = { version = "0.12", features = ["blocking"] }
walkdir = "2"
