[package]
name = "astroport-juno-types"
version = "0.1.0"
edition = "2021"
publish = false

[dependencies]
anyhow = "1"
cosmwasm-schema = "1.5"
cosmwasm-std = "1.5"
cw-multi-test = "1.2"
cw1-whitelist = "1.1"
cw20 = "1.1"
cw20-base = "1.1"
