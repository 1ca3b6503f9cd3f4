[package]
name = "movies_graph"
version = "0.1.0"
edition = "2021"
publish = false

[dependencies]
axum = "*"
color-eyre = "*"
futures = "*"
neo4rs = "*"
serde = { version = "*", features = ["derive"] }
tokio = { version = "*", features = ["macros", "rt-multi-thread", "net"] }
tower-http = { version = "*", features = ["fs", "trace"] }
tracing = "*"
tracing-error = "*"
tracing-subscriber = { version = "*", features = ["env-filter", "fmt"] }
