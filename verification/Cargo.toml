[package]
name = "typomania_crates"
version = "0.1.0"
edition = "2021"
publish = false

[dependencies]
parse_duration = "*"
typomania = "*"
sqlx = { version = "*", default-features = false, features = ["postgres", "runtime-tokio"] }
tokio = { version = "*", features = ["macros", "rt-multi-thread", "fs", "io-util"] }
clap = { version = "*", features = ["derive", "env"] }
anyhow = "*"
colored = "*"
is-terminal = "*"
supports-hyperlinks = "*"
terminal-link = "*"
toml = "*"
serde = { version = "*", features = ["derive"] }
tracing = "*"
tracing-subscriber = { version = "*", features = ["env-filter", "fmt"] }
futures = "*"
pyo3 = "*"
thiserror = "*"
