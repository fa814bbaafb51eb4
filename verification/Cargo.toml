[package]
name = "micro_template"
version = "0.1.0"
edition = "2021"
publish = false
rust-version = "1.95"

[dependencies]
shodh-redb = "=0.5.0"
flatbuffers = "=25.12.19"
rust_flatbuffer_macros = "=1.1.0"
log = { version = "=0.4.35", features = ["max_level_info"] }
thiserror = "=2.0.21"
ntex = { version = "=3.10.1", features = ["compio"] }
paste = "=1.0.15"
