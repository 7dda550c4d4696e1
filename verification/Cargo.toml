[package]
name = "todo_fargate"
version = "0.1.0"
edition = "2021"
publish = false

[dependencies]
aws-config = { version = "1", default-features = false, features = ["behavior-version-latest", "rustls", "rt-tokio"] }
aws-sdk-dynamodb = { version = "1", default-features = false, features = ["behavior-version-latest", "rustls", "rt-tokio"] }
chrono = { version = "=0.4.45", features = ["serde"] }
leptos = { version = "0.6", features = ["ssr"] }
leptos_meta = { version = "0.6", features = ["ssr"] }
leptos_router = { version = "0.6", features = ["ssr"] }
serde = { version = "1", features = ["derive"] }
