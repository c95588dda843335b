[package]
name = "ore_miner"
version = "0.1.0"
edition = "2021"
publish = false

[dependencies]
drillx = "*"
ore-api = "=2.7.0"
rand = "0.8"
solana-program = "2"
bs58 = "*"
colored = "*"
core_affinity = "*"
num_cpus = "*"
