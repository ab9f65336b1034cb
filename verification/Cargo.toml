[package]
name = "menus_manager"
version = "0.1.0"
edition = "2021"
publish = false

[dependencies]
calamine = "*"
iced = { version = "0.13", default-features = false }
native-dialog = "*"
rust_xlsxwriter = "*"
