[package]
name = "blog_engine"
version = "0.1.0"
edition = "2021"
publish = false

[dependencies]
anyhow = "1"
axum = { version = "0.8", features = ["macros", "multipart"] }
chrono = "0.4"
dotenv = "0.15"
once_cell = "1"
pinyin = "*"
pulldown-cmark = "*"
pulldown-cmark-toc = "*"
scraper = "*"
serde = { version = "1", features = ["derive"] }
serde_yaml = "0.9"
tera = { version = "1", default-features = false }
thiserror = "*"
tokio = { version = "1", features = ["full"] }
toml = "*"
tower-http = { version = "*", features = ["fs"] }
tracing = "0.1"
tracing-subscriber = "0.3"
