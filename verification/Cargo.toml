[package]
name = "sql_type"
version = "0.1.0"
edition = "2021"
publish = false

[dependencies]
sql-parse = "=0.28.0"
