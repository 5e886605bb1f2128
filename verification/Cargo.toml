[package]
name = "fvm"
version = "0.1.0"
edition = "2021"
publish = false

[dependencies]
anyhow = "=1.0.104"
blake2b_simd = "=1.0.5"
bls-signatures = { version = "=0.15.0", default-features = false, features = ["pairing"] }
cid = { version = "=0.11.3", features = ["serde"] }
libsecp256k1 = "=0.7.2"
multihash-codetable = { version = "=0.2.2", features = ["blake2b", "sha2"] }
serde = { version = "=1.0.229", features = ["derive"] }
serde_bytes = "=0.11.19"
serde_ipld_dagcbor = "=0.6.4"
serde_repr = "=0.1.21"
serde_tuple = "=1.1.3"
wasmtime = { version = "=36.0.19", default-features = false, features = ["runtime", "std"] }

[dev-dependencies]
rand = "=0.8.8"
rand_chacha = "=0.3.1"
