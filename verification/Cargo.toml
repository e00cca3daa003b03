[package]
name = "cardwire"
version = "0.1.0"
edition = "2021"
publish = false

[dependencies]
anyhow = "=1.0.104"
aya = "=0.14.0"
# aya-ebpf builds with this; later patches of it need a newer compiler.
aya-build = "=0.2.0"
aya-ebpf = "=0.2.1"
aya-log = "=0.3.0"
log = "=0.4.35"
tokio = { version = "=1.54.1", features = ["macros", "net", "process", "rt-multi-thread", "sync", "time"] }
zbus = { version = "=5.19.0", default-features = false, features = ["tokio"] }
