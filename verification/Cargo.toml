[package]
name = "localm"
version = "0.1.0"
edition = "2021"
publish = false

[dependencies]
uuid = { version = "*", features = ["v4"] }
serde = { version = "*", features = ["derive"] }
serde_json = "*"
tokio = { version = "*", features = ["rt-multi-thread", "macros", "time", "fs", "process", "sync", "io-util"] }
async-trait = "*"
dashmap = "*"
directories = "*"
chrono = { version = "*", features = ["serde"] }
reqwest = { version = "*", default-features = false, features = ["json", "rustls-tls"] }
llama-cpp-2 = "*"
lopdf = "*"
printpdf = "*"
pdf-extract = "*"
