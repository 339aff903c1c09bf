[package]
name = "gsm_supervisor"
version = "0.1.0"
edition = "2021"
publish = false

[dependencies]
chrono = "0.4"
clap = { version = "4", features = ["derive"] }
cron = "*"
daemonize = "*"
nix = { version = "*", features = ["signal"] }
regex = "1"
strsim = "*"
sysinfo = "*"
thiserror = "*"
tokio = { version = "1", features = ["rt-multi-thread", "macros", "time", "sync"] }
tracing = "0.1"
tracing-subscriber = "0.3"
which = "*"
