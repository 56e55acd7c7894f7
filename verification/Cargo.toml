[package]
name = "kaldi_native_fbank"
version = "0.1.0"
edition = "2021"
publish = false

[dependencies]
rand = "*"
realfft = "*"
rustfft = "*"
