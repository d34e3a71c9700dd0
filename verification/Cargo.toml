[package]
name = "alexandria"
version = "0.1.0"
edition = "2021"
publish = false

[dependencies]
chrono = { version = "0.4", features = ["serde"] }
color-eyre = "0.6"
diesel = { version = "2", features = ["postgres", "uuid", "r2d2", "chrono"] }
diesel-derive-enum = { version = "2", features = ["postgres"] }
diesel_migrations = "2"
dotenvy = "0.15"
rayon = "1"
rocket = { version = "0.5", features = ["json", "uuid"] }
rocket_cors = "0.6"
tracing = "0.1"
tracing-subscriber = "0.3"
uuid = { version = "1", features = ["v4", "serde"] }
