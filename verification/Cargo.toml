[package]
name = "csv_parser"
version = "0.1.0"
edition = "2021"
publish = false

[dependencies]
actix-http = "*"
actix-rt = "*"
actix-web = { version = "*", default-features = false, features = ["compress-gzip"] }
atone = "*"
csv = "*"
dotenv = "*"
log = "*"
serde = { version = "*", features = ["derive"] }
serde_json = "*"
structopt = "*"
thiserror = "*"
tracing = "*"
tracing-log = "*"
tracing-subscriber = "*"
