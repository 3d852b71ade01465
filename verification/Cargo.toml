[package]
name = "rulescan"
version = "0.1.0"
edition = "2021"
publish = false

[dependencies]
anyhow = "1"
clap = { version = "4", features = ["derive"] }
fugue-mptp = "*"
idalib = "*"
regex = "1"
serde = { version = "1", features = ["derive"] }
serde_json = "1"
tabled = "*"
weggli-ruleset = "*"
wegglix = "*"
