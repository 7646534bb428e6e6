[package]
name = "ec2_connect"
version = "0.1.0"
edition = "2021"
publish = false

[dependencies]
aws-config = "=0.15.0"
aws-sdk-ec2 = "=0.15.0"
clap = "=3.2.25"
serde_yaml = "=0.9.34"
tokio = { version = "=1.54.1", features = ["macros", "rt-multi-thread"] }
