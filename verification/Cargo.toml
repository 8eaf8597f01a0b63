[package]
name = "otpfs"
version = "0.1.0"
edition = "2021"
publish = false

[dependencies]
hmac = "*"
sha1 = "*"
koibumi-base32 = "*"
fuser = "*"
clap = { version = "*", features = ["derive"] }
libc = "*"

[dev-dependencies]
totp-lite = "*"
