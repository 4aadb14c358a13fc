[package]
name = "pki_trust"
version = "0.1.0"
edition = "2021"
publish = false

[dependencies]
aws-lc-rs = "=1.18.2"
der = "=0.7.10"
pyo3 = "=0.30.1"
sha1 = { version = "=0.10.7", features = ["oid"] }
x509-cert = "=0.2.5"
x509-ocsp = { version = "=0.2.1", features = ["builder"] }
x509-parser = "=0.17.0"
