[package]
name = "sudoku_tutor"
version = "0.1.0"
edition = "2021"
publish = false

[dependencies]
sudoku = "*"
anyhow = "1"
derive_builder = "*"
wasm-bindgen = "0.2"
