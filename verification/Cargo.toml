[package]
name = "fletch"
version = "0.1.0"
edition = "2021"
publish = false

[dependencies]
codespan-reporting = "=0.13.1"
num-bigint = "0.4"
tap = "=1.0.1"
