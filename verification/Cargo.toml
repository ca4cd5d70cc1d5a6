[package]
name = "ecs_exec"
version = "0.1.0"
edition = "2021"
publish = false

[dependencies]
anyhow = "*"
aws-config = "*"
aws-types = "*"
clap = { version = "*", features = ["derive"] }
dialoguer = "*"
env_logger = "*"
log = "*"
rusoto_core = { version = "*", default-features = false, features = ["rustls"] }
rusoto_ecs = { version = "*", default-features = false, features = ["rustls"] }
subprocess = "*"
tokio = { version = "*", features = ["macros", "rt-multi-thread"] }
which = "*"
