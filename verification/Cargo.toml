[package]
name = "sc_binding_utility"
version = "0.1.0"
edition = "2021"
publish = false

[dependencies]
quick-xml = "*"
gilrs = "*"
rusty-xinput = "*"
serde = { version = "1", features = ["derive"] }
serde_json = "1"
