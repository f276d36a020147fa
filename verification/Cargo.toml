[package]
name = "display_list_flattener"
version = "0.1.0"
edition = "2021"
publish = false

[dependencies]
app_units = "0.7"
