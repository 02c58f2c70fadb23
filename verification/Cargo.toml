[package]
name = "akvsign"
version = "0.1.0"
edition = "2021"
publish = false

[dependencies]
minicbor = { version = "*", features = ["std"] }
openssl = "0.10"
base64 = "0.22"
structopt = "0.3"
tokio = { version = "1", features = ["macros", "rt-multi-thread"] }
azure_identity = "0.21"
azure_security_keyvault = "0.21"
