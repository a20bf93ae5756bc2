[package]
name = "yy_dps"
version = "0.1.0"
edition = "2021"
publish = false

[dependencies]
anyhow = "=1.0.104"
async-trait = "=0.1.92"
bb8 = "=0.9.1"
bb8-tiberius = "=0.16.0"
calamine = "=0.38.0"
chrono = "=0.4.45"
futures = "=0.3.34"
makepad-widgets = "=1.0.0"
rand = "=0.9.5"
rand_distr = "=0.5.1"
rayon = "=1.12.0"
regex = "=1.13.1"
rfd = { version = "=0.17.2", default-features = false, features = ["xdg-portal"] }
rust_xlsxwriter = "=0.102.0"
serde = { version = "=1.0.229", features = ["derive"] }
tiberius = { version = "=0.12.3", default-features = false, features = ["tds73", "chrono", "rustls"] }
tiberius-mappers = "=0.8.0"
tokio = { version = "=1.54.1", features = ["full"] }
toml = "=1.2.1"
tracing = "=0.1.44"
tracing-subscriber = "=0.3.23"
umya-spreadsheet = "=3.1.1"
