[package]
name = "oxc_formatter_json"
version = "0.1.0"
edition = "2021"
publish = false

[dependencies]
convert_case = "=0.12.0"
oxc_allocator = "=0.143.0"
oxc_ast = "=0.143.0"
oxc_diagnostics = "=0.143.0"
oxc_parser = "=0.143.0"
oxc_span = "=0.143.0"
walkdir = "=2.5.0"
