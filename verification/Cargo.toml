[package]
name = "compiledfiles"
version = "0.1.0"
edition = "2021"
publish = false

[dependencies]
gimli = "*"
object = "*"
pdb = "*"
thiserror = "*"
