[package]
name = "tuber"
version = "0.1.0"
edition = "2021"
publish = false

[dependencies]
bincode = "1"
serde = "1"
bytes = "1"
tokio = { version = "1", features = ["io-util", "rt", "rt-multi-thread", "macros", "sync"] }
tokio-util = { version = "0.7", features = ["codec", "io"] }
futures = "0.3"
thiserror = "1"
tracing = "0.1"
once_cell = "1"
pin-project-lite = "0.2"
syn = { version = "2", features = ["full"] }
quote = "1"
proc-macro2 = "1"
wasm-bindgen = "0.2"
js-sys = "0.3"
wasm-bindgen-futures = "0.4"
wasm-streams = "0.4"
web-sys = { version = "0.3", features = ["MessagePort", "MessageEvent", "MessageChannel", "ReadableStream", "WritableStream", "Worker", "WorkerOptions", "WorkerType", "Blob", "BlobPropertyBag", "Url", "Window"] }
