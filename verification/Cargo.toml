[package]
name = "uniffi_jni_core"
version = "0.1.0"
edition = "2021"
publish = false

[dependencies]
heck = "=0.5.0"
const-random = "=0.1.18"
log = "=0.4.35"
