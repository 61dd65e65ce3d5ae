[package]
name = "rpg_compiler"
version = "0.1.0"
edition = "2021"
publish = false

[dependencies]
regex = "=1.13.1"
clap = "=3.2.25"
directories-next = "=2.0.0"
simple_colors = "=1.0.1"
spinner = "=0.5.0"
spinners = "=2.0.0"
