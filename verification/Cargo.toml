[package]
name = "revset_explorer"
version = "0.1.0"
edition = "2021"
publish = false

[dependencies]
anyhow = "=1.0.104"
chrono = "=0.4.45"
clap = { version = "=4.6.7", features = ["derive"] }
egui_graphs = "=0.29.0"
etcetera = "=0.11.0"
jj-lib = "=0.36.0"
# Not used directly: holds a dependency of jj-lib to a release that the
# compiler in use can build.
kstring = "=2.0.2"
petgraph = "=0.8.3"
toml = "=0.9.12"
