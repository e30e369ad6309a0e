[package]
name = "zexe_swap"
version = "0.1.0"
edition = "2021"
publish = false

[dependencies]
actix-web = "4"
ark-bls12-377 = { version = "0.4", features = ["r1cs"] }
ark-bw6-761 = "0.4"
ark-ec = "0.4"
ark-ff = "0.4"
ark-groth16 = "0.4"
ark-r1cs-std = "0.4"
ark-relations = "0.4"
ark-serialize = "0.4"
ark-snark = "0.4"
ark-std = "0.4"
rand_chacha = "0.3"
reqwest = { version = "0.11", default-features = false, features = ["json"] }
serde = { version = "1", features = ["derive"] }
serde_json = "1"
tokio = { version = "1", features = ["macros", "rt-multi-thread"] }
