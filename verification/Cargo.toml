[package]
name = "s3_writer"
version = "0.1.0"
edition = "2021"
publish = false

[dependencies]
url = "*"
object_store = { version = "*", features = ["aws"] }
bytes = "*"
futures = "*"
