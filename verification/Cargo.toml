[package]
name = "ariel_os"
version = "0.1.0"
edition = "2021"
publish = false

[dependencies]
minicbor = { version = "=2.3.1", features = ["derive"] }
critical-section = { version = "=1.2.0", features = ["std"] }
coap-message = "=0.3.7"
coap-numbers = "=0.2.11"
coap-message-utils = "=0.3.12"
libm = "=0.2.16"
ccm = "=0.6.1"
aes = "=0.9.4"
p256 = { version = "=0.14.0", features = ["ecdsa"] }
minicbor-adapters = "=0.0.8"
lakers = "*"
