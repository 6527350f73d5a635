[package]
name = "cisat"
version = "0.1.0"
edition = "2021"
publish = false

[dependencies]
rand = "0.8"
rand_distr = "0.4"
rayon = "1"
indicatif = "0.15"
structopt = "0.3"
