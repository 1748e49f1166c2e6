[package]
name = "agent_workbench"
version = "0.1.0"
edition = "2021"
publish = false

[dependencies]
agent-client-protocol = "*"
anyhow = "1"
async-lock = "3"
log = "0.4"
objc = "0.2"
raw-window-handle = "0.6"
schemars = "1"
serde = { version = "1", features = ["derive"] }
serde_json = { version = "1", features = ["preserve_order"] }
wry = "0.46"
