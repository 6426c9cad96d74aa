[package]
name = "ontarget"
version = "0.1.0"
edition = "2021"
publish = false

[dependencies]
noodles = { version = "*", features = ["bam", "bed", "bgzf", "core", "csi", "sam"] }
clap = { version = "*", features = ["derive"] }
bstr = "*"
