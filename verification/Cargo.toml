[package]
name = "rusty_procedure_call"
version = "0.1.0"
edition = "2021"
publish = false

[dependencies]
postcard = { version = "1", features = ["use-std"] }
serde = { version = "1", features = ["derive"] }
tokio = { version = "1", features = ["rt", "rt-multi-thread", "net", "io-util", "macros", "sync", "time"] }
thiserror = "1"
syn = { version = "2", features = ["full"] }
quote = "1"
proc-macro2 = "1"
message-io = "*"
