[package]
name = "coco_search"
version = "0.1.0"
edition = "2021"
publish = false

[dependencies]
url = "2"
hostname = "*"
reqwest = { version = "0.12", default-features = false, features = ["json"] }
serde = { version = "1", features = ["derive"] }
serde_json = "1"
tokio = { version = "1", features = ["rt-multi-thread", "time", "sync", "macros"] }
futures = "0.3"
async-trait = "0.1"
thiserror = "*"
log = "0.4"
meval = "*"
num2words = "*"
chinese-number = "*"
