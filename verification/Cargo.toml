[package]
name = "teth"
version = "0.1.0"
edition = "2021"
publish = false

[dependencies]
ethereum-types = "0.4"
rlp = "0.3"
tiny-keccak = "1.4"
lazy_static = "1"
serde = { version = "1", features = ["derive"] }
structopt = "0.2"
jsonrpc-derive = "10"
jsonrpc-ws-server = "10"
