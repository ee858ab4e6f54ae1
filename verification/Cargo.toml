[package]
name = "task_sync"
version = "0.1.0"
edition = "2021"
publish = false

[dependencies]
leptos = { version = "=0.6.15", features = ["ssr"] }
leptos_meta = { version = "=0.6.15", features = ["ssr"] }
leptos_router = { version = "=0.6.15", features = ["ssr"] }
serde = { version = "1", features = ["derive"] }
sqlx = { version = "=0.7.4", default-features = false, features = ["sqlite", "runtime-tokio", "macros"] }
futures = "0.3"
web-sys = { version = "0.3", features = ["FormData"] }
