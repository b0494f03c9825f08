[package]
name = "embed_pipeline"
version = "0.1.0"
edition = "2021"
publish = false

[dependencies]
rustc_apfloat = "=0.2.3"
image = "=0.25.10"
qdrant-client = "=1.19.0"
fastembed = { version = "=7.1.1", default-features = false, features = ["image-models", "hf-hub"] }
tokio = { version = "=1.53.2", features = ["rt-multi-thread", "macros", "sync", "time"] }
walkdir = "=2.5.0"
anyhow = "=1.0.104"
dotenv = "=0.15.0"
tracing = "=0.1.44"
tracing-subscriber = "=0.3.23"
rayon = "=1.12.0"
