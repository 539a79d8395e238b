[package]
name = "salus"
version = "0.1.0"
edition = "2021"
publish = false

[dependencies]
arrayvec = "0.7"
spin = "0.9"
memoffset = "0.9"
tock-registers = "*"
elf_rs = "*"
der = "*"
ed25519 = "*"
ed25519-dalek = "*"
sha2 = "*"
const-oid = "*"
generic-array = "*"
digest = "*"
