[package]
name = "wal_snapshot"
version = "0.1.0"
edition = "2021"
publish = false

[dependencies]
libsql_replication = "*"
libsql-sys = "*"
tempfile = "3"
tokio = { version = "1", features = ["fs"] }
zerocopy = "0.7"
