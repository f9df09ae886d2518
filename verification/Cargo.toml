[package]
name = "assert_impl_trait"
version = "0.1.0"
edition = "2021"

[dependencies]
proc-macro2 = "1"

[dev-dependencies]
proc-macro2 = { version = "1", features = ["span-locations"] }
quote = "1"
