[package]
name = "solidity_ast"
version = "0.1.0"
edition = "2021"
publish = false

[dependencies]
foundry-compilers = { version = "=0.18.4", default-features = false }
itertools = "=0.14.0"
rayon = "=1.12.0"
semver = "=1.0.28"
serde = { version = "=1.0.229", features = ["derive"] }
serde_json = "=1.0.154"
# foundry-compilers asks for solar-parse 0.1.5, which compiles only against its
# sibling crates of the same version; these lines hold them to it.
solar-ast = { version = "=0.1.5", default-features = false }
solar-config = { version = "=0.1.5", default-features = false }
solar-data-structures = { version = "=0.1.5", default-features = false }
solar-interface = { version = "=0.1.5", default-features = false }
solar-macros = { version = "=0.1.5", default-features = false }
walkdir = "=2.5.0"
