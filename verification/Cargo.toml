[package]
name = "userlist"
version = "0.1.0"
edition = "2021"
publish = false

[dependencies]
conrod_core = "0.76"
conrod_piston = "0.76"
piston_window = "0.120"
find_folder = "=0.3.0"
