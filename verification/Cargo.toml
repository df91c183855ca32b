[package]
name = "codegen_fuzz"
version = "0.1.0"
edition = "2021"
publish = false

[dependencies]
serde_json = "*"
roxmltree = "*"
object = "*"
sha2 = "*"
hex = "*"
executable_memory = "*"
libc = "*"
