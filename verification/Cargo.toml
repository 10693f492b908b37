[package]
name = "r-lanscan"
version = "0.1.0"
edition = "2021"
publish = false

[dependencies]
ipnet = "2"
pnet = "0.35"
csv = "1"
humantime = "2"
clap = "4"
oui-data = "*"
serde = { version = "1", features = ["derive"] }
serde_json = "1"
log = "0.4"
simplelog = "0.12"
color-eyre = "0.6"
dns-lookup = "2"
nix = { version = "0.29", features = ["user"] }
ureq = "3"
directories = "*"
threadpool = "1"
prettytable-rs = "0.10"
