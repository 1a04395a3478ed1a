[package]
name = "mongosql"
version = "0.1.0"
edition = "2021"
publish = false

[dependencies]
bson = "2"
regex = "1"
thiserror = "1"
