[package]
name = "nixos_ami_upload"
version = "0.1.0"
edition = "2021"
publish = false

[dependencies]
anyhow = "=1.0.104"
coldsnap = "=0.3.3"
console = "=0.16.6"
env_logger = "=0.11.11"
gpt = "=4.1.0"
indicatif = "=0.16.2"
log = "=0.4.34"
rusoto_core = "=0.48.0"
rusoto_ebs = "=0.48.0"
rusoto_ec2 = "=0.48.0"
rusoto_ssm = "=0.48.0"
serde = { version = "=1.0.229", features = ["derive"] }
serde_json = "=1.0.154"
structopt = "=0.3.26"
tokio = { version = "=1.54.1", features = ["macros", "rt-multi-thread"] }
