[package]
name = "zenoh_plugin_rest"
version = "0.1.0"
edition = "2021"
publish = false

[dependencies]
base64 = "0.13"
serde_json = "1"
tide = "0.16"
http-types = "2"
async-std = "1"
futures = "0.3"
log = "0.4"
env_logger = "0.9"
clap = "2"
