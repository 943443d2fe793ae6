[package]
name = "insn_tally"
version = "0.1.0"
edition = "2021"
publish = false

[dependencies]
capstone = "0.6"
elf = "0.0.10"
serde = { version = "1", features = ["derive"] }
serde_json = "1"
sha2 = "0.8"
