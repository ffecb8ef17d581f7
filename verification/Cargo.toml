[package]
name = "kittygame"
version = "0.1.0"
edition = "2021"
publish = false

[dependencies]
num = "0.4"
linked_list_allocator = "0.10"
