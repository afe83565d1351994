[package]
name = "hls_inspect"
version = "0.1.0"
edition = "2021"
publish = false

[dependencies]
bitter = "*"
futures = "*"
mp4-atom = "*"
percent-encoding = "*"
quick-m3u8 = "*"
quick-xml = "*"
url = "*"
wasm-bindgen = "*"
wasm-bindgen-futures = "*"
web-sys = { version = "*", features = ["Window", "Performance", "PerformanceEntry", "PerformanceResourceTiming", "Request", "RequestInit", "RequestCache", "Response", "Headers", "AbortSignal", "AbortController", "DomException", "EventTarget"] }
