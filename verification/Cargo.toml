[package]
name = "nn"
version = "0.1.0"
edition = "2021"
publish = false

[dependencies]
digit-layout = "=0.3.1"
ggus = "=0.5.1"
mem-rearrange = "=0.1.1"
memmap2 = "=0.9.12"
