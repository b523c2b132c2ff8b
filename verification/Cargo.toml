[package]
name = "book_reviews"
version = "0.1.0"
edition = "2021"
publish = false

[dependencies]
actix-files = "0.6"
actix-web = { version = "4", default-features = false, features = ["macros"] }
diesel = { version = "1.4", features = ["sqlite", "r2d2"] }
dotenv = "0.15"
env_logger = "0.9"
handlebars = "4"
log = "0.4"
serde = { version = "1", features = ["derive"] }
serde_json = "1"
