[package]
name = "ruffle_android"
version = "0.1.0"
edition = "2021"
publish = false

[dependencies]
android-activity = "=0.6.1"
jni = "=0.22.4"
log = "=0.4.35"
url = "=2.5.8"
