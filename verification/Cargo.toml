[package]
name = "mdbrowser"
version = "0.1.0"
edition = "2021"
publish = false

[dependencies]
pulldown-cmark = "0.8"
git2 = "*"
regex = "1"
chrono = "0.4"
tokio = { version = "1", features = ["macros", "rt-multi-thread"] }
warp = "0.3"
structopt = "0.3"
pretty_env_logger = "*"
gettid = "*"
