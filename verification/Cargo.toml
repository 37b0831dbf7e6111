[package]
name = "hob"
version = "0.1.0"
edition = "2021"
publish = false

[dependencies]
anyhow = "1"
async-compression = { version = "0.3", features = ["tokio", "gzip", "xz", "bzip2"] }
async-trait = "0.1"
async_zip = "0.0.9"
byteorder = "1"
futures = "0.3"
handlebars = "4"
hex = "0.4"
kdl = "4"
libc = "0.2"
miette = { version = "5", features = ["fancy"] }
num_cpus = "1"
reqwest = { version = "0.11", default-features = false, features = ["rustls-tls"] }
ring = "0.17"
serde = { version = "1", features = ["derive"] }
thiserror = "1"
tokio = { version = "1", features = ["fs", "io-util", "macros", "process", "rt-multi-thread"] }
tokio-tar = "0.3"
wax = "0.5"
