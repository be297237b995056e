[package]
name = "kata_fc"
version = "0.1.0"
edition = "2021"
publish = false

[dependencies]
anyhow = "=1.0.104"
async-trait = "0.1"
base64 = "=0.22.1"
byte-unit = "=5.2.6"
capctl = "=0.2.4"
cgroups-rs = "=0.3.4"
futures = "=0.3.34"
inotify = "=0.11.5"
libc = "=0.2.191"
nix = "=0.26.4"
oci-spec = "=0.8.4"
opentelemetry = { version = "0.17", features = ["rt-tokio", "serialize"] }
pathrs = "=0.2.6"
rlimit = "=0.5.4"
safe-path = "=0.1.0"
serde = { version = "=1.0.229", features = ["derive"] }
serde_json = "=1.0.154"
slog = "=2.8.2"
tokio = { version = "=1.54.1", features = ["full"] }
tokio-vsock = "=0.7.3"
toml = "=0.8.23"
tracing = "0.1"
tracing-opentelemetry = "0.17"
tracing-subscriber = "0.3"
ttrpc = { version = "=0.8.6", features = ["async"] }

[dev-dependencies]
tempfile = "=3.27.0"
