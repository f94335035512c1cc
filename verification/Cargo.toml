[package]
name = "nativeshell"
version = "0.1.0"
edition = "2021"
publish = false

[dependencies]
base64 = "0.13"
yaml-rust = "0.4"
diff = "0.1"
convert_case = "0.6"
widestring = "0.4"
byte-slice-cast = "1"
pathdiff = "0.2"
dunce = "1"
path-slash = "0.2"
serde = { version = "1", features = ["derive"] }
serde_json = "1"
futures = "0.3"
once_cell = "1"
cargo-emit = "0.2"
copy_dir = "0.1"
tar = "0.4"
cmake = "0.1"
velcro = "0.5"
