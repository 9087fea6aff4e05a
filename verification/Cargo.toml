[package]
name = "example_crud_blog_seaorm"
version = "0.1.0"
edition = "2021"
publish = false

[dependencies]
bcrypt = "*"
hmac = "*"
sha2 = "*"
serde = { version = "*", features = ["derive"] }
serde_json = "*"
actix-web = "*"
actix-cors = "*"
sea-orm = "*"
tokio = { version = "*", features = ["macros", "rt-multi-thread"] }
async-trait = "*"
dotenvy = "*"
