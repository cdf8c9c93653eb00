[package]
name = "judo"
version = "0.1.0"
edition = "2021"
publish = false

[dependencies]
anyhow = "1"
arboard = { version = "3", default-features = false }
chrono = { version = "0.4", default-features = false, features = ["clock", "std"] }
clap = { version = "4", features = ["derive"] }
crossterm = "0.28"
exitcode = "1"
ratatui = "0.29"
sqlx = { version = "0.8", default-features = false, features = ["sqlite", "runtime-tokio", "chrono", "migrate", "derive"] }
tabwriter = "1"
textwrap = "0.16"
tokio = { version = "1", features = ["rt-multi-thread", "macros"] }
