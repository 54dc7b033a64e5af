[package]
name = "ws_broker"
version = "0.1.0"
edition = "2021"
publish = false

[dependencies]
actix = "=0.13.5"
actix-web = "=4.18.1"
actix-web-actors = "=4.3.1"
env_logger = "=0.10.2"
futures-util = "=0.3.34"
google-cloud-default = { version = "=0.1.1", features = ["pubsub"] }
# Held at 0.14.1: google-cloud-pubsub 0.14.1 does not build against 0.14.2,
# which moved to another release of tonic.
google-cloud-gax = "=0.14.1"
google-cloud-pubsub = "=0.14.1"
log = "=0.4.34"
uuid = { version = "=1.29.0", features = ["v4"] }
