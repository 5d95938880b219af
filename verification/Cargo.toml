[package]
name = "httptest"
version = "0.1.0"
edition = "2021"
publish = false

[dependencies]
regex = "1"
serde_json = "1"
bstr = "1"
url = "2"
serde = "1"
serde_urlencoded = "0.7"
http = "1"
hyper = { version = "1", features = ["server", "http1"] }
hyper-util = { version = "0.1", features = ["tokio", "server", "server-auto"] }
http-body-util = "0.1"
tokio = { version = "1", features = ["rt-multi-thread", "net", "time", "sync"] }
bytes = "1"
futures = "0.3"
crossbeam-channel = "0.5"
once_cell = "1"
