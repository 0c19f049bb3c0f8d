[package]
name = "sheet_shark"
version = "0.1.0"
edition = "2021"
publish = false

[dependencies]
chrono = { version = "0.4", default-features = false, features = ["std"] }
humantime = "2"
type-safe-id = "*"
clap = { version = "4", features = ["derive"] }
color-eyre = "0.6"
crossterm = "0.28"
ratatui = "0.29"
tokio = { version = "1", features = ["rt", "rt-multi-thread", "macros", "sync", "time"] }
tracing = "0.1"
diesel = { version = "2", features = ["sqlite"] }
diesel_migrations = "2"
directories = "*"
serde = { version = "1", features = ["derive"] }
serde_json = "1"
time = { version = "0.3", features = ["formatting", "parsing", "local-offset", "macros"] }
csv = "1"
futures = "0.3"
