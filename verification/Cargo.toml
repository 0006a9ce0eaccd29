[package]
name = "my_little_factory_manager"
version = "0.1.0"
edition = "2021"
publish = false

[dependencies]
rand = "0.8"
rand_pcg = "0.3"
serde = { version = "1", features = ["derive"] }
serde_json = "1"
schemars = "0.8"
rocket = { version = "0.5", features = ["json"] }
rocket_okapi = { version = "0.8", features = ["swagger"] }
env_logger = "0.11"
