[package]
name = "filescandb"
version = "0.1.0"
edition = "2021"
publish = false

[dependencies]
rusqlite = "*"
chrono = "*"
diesel = { version = "*", features = ["sqlite"] }
dotenv = "*"
