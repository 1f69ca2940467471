[package]
name = "guest_users"
version = "0.1.0"
edition = "2021"
publish = false

[dependencies]
anyhow = "*"
clap = { version = "4", features = ["derive"] }
clap-verbosity-flag = "*"
config = "*"
diesel = { version = "2", features = ["sqlite"] }
diesel_migrations = "2"
libc = "*"
libnss = "*"
log = "*"
nix = { version = "*", features = ["user", "fs"] }
simple_logger = "*"
tokio = { version = "1", features = ["rt"] }
tokio-stream = "*"
utmp-rs = "*"
zbus = "*"
