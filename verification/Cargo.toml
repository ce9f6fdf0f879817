[package]
name = "blockade_recon"
version = "0.2.0"
edition = "2021"
publish = false

[dependencies]
eui48 = "*"
oui = "*"
clap = "2.33"
pcap = "*"
radiotap = "*"
termion = "1.5"
tui = { version = "*", default-features = false, features = ["termion"] }
