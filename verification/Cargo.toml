[package]
name = "fil_actor_states"
version = "0.1.0"
edition = "2021"
publish = false

[dependencies]
fvm_shared = "=4.8.4"
fvm_ipld_encoding = "=0.5.4"
fvm_ipld_bitfield = "0.7"
unsigned-varint = "=0.8.0"
rlp = "=0.5.2"

[dev-dependencies]
multihash-codetable = { version = "0.2", features = ["sha3"] }
