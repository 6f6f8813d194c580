[package]
name = "pg_query_parser"
version = "0.1.0"
edition = "2021"

[dependencies]
libc = "0.2"
