[package]
name = "pydantic_core"
version = "0.1.0"
edition = "2021"
publish = false

[dependencies]
speedate = "=0.7.0"
strum = "=0.24.1"
