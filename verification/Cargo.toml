[package]
name = "web_blog"
version = "0.1.0"
edition = "2021"
publish = false

[dependencies]
anyhow = "*"
axum = "*"
clap = { version = "*", features = ["derive"] }
notify-debouncer-mini = "*"
pulldown-cmark = "*"
rayon = "*"
serde = { version = "*", features = ["derive"] }
serde_json = "*"
tera = "*"
tokio = { version = "*", features = ["full"] }
toml = "*"
tower-http = { version = "*", features = ["fs"] }
tracing = "*"
walkdir = "*"
