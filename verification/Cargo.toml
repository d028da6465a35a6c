[package]
name = "approx_distinct"
version = "0.1.0"
edition = "2021"
publish = false

[dependencies]
arrow = { version = "=59.3.2", default-features = false }
datafusion-common = { version = "=55.2.0", default-features = false }
datafusion-doc = { version = "=55.2.0", default-features = false }
datafusion-expr = { version = "=55.2.0", default-features = false }
datafusion-functions-aggregate-common = { version = "=55.2.0", default-features = false }
datafusion-macros = { version = "=55.2.0", default-features = false }
