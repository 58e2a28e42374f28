[package]
name = "i18n_hunt"
version = "0.1.0"
edition = "2021"
publish = false

[dependencies]
clap = { version = "=4.6.7", features = ["derive"] }
globset = "=0.4.21"
ignore = "=0.4.34"
owo-colors = "=4.4.0"
oxc_allocator = "=0.143.0"
oxc_ast = "=0.143.0"
oxc_ast_visit = "=0.143.0"
oxc_parser = "=0.143.0"
oxc_span = "=0.143.0"
serde = { version = "=1.0.229", features = ["derive"] }
serde_json = "=1.0.154"
toml = "=1.1.8"
