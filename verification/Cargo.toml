[package]
name = "xaeroflux"
version = "0.1.0"
edition = "2021"
publish = false

# The bootstrap program in app/ also needs iggy, iroh-gossip, rusqlite and iroh's feature
# discovery-local-network. Together they bring well over a hundred crates more, so they had to
# leave this file, which serves the library and its tests.
[dependencies]
anyhow = "=1.0.104"
blake3 = "=1.8.7"
bytes = "=1.12.1"
chrono = { version = "=0.4.45", default-features = false, features = ["now", "std"] }
futures = { version = "=0.3.34", default-features = false, features = ["std"] }
getrandom = "=0.3.4"
hex = "=0.4.3"
iroh = { version = "=0.95.1", default-features = false }
iroh-blobs = { version = "=0.97.1", default-features = false }
rand_chacha = "=0.9.0"
serde = { version = "=1.0.229", features = ["derive"] }
serde_json = "=1.0.154"
tokio = { version = "=1.54.1", features = ["rt-multi-thread", "macros", "sync", "time"] }
tracing = "=0.1.44"
tracing-subscriber = { version = "=0.3.23", features = ["env-filter"] }
uuid = { version = "=1.29.0", features = ["v4"] }

# Nothing here is called. These lines hold crates that iroh brings at the versions that it was
# released with: later pre-releases of the first four do not build together, and later versions of
# the last two bring many more crates.
der = { version = "=0.8.0-rc.9", default-features = false }
ed25519 = { version = "=3.0.0-rc.1", default-features = false }
pkcs8 = { version = "=0.11.0-rc.7", default-features = false }
spki = { version = "=0.8.0-rc.4", default-features = false }
idna_adapter = "=1.1.0"
pkarr = { version = "=5.0.0", default-features = false }
