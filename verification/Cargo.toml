[package]
name = "sgx_keep"
version = "0.1.0"
edition = "2021"
publish = false

[dependencies]
anyhow = "=1.0.104"
flagset = "=0.4.7"
goblin = "=0.10.7"
iocuddle = "=0.2.0"
libc = "=0.2.190"
lset = "=0.3.0"
openssl = "=0.10.81"
primordial = "=0.5.0"
sallyport = "=0.2.0"
sgx = { version = "=0.6.1", features = ["openssl"] }
