[package]
name = "mui_strings"
version = "0.1.0"
edition = "2021"
publish = false

[dependencies]
clap = "2"
goblin = "0.2"
scroll = "0.10"
