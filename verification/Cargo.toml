[package]
name = "webapp-lib"
version = "0.3.1"
edition = "2021"
publish = false

[dependencies]
serde = { version = "1", features = ["derive"] }
serde_json = "1"
wasm-bindgen = "0.2"
wasm-bindgen-futures = "0.4"
js-sys = "0.3"
web-sys = { version = "0.3", features = ["Window", "Document", "Element", "HtmlElement", "HtmlHeadElement", "Node", "Storage", "CustomEvent", "CustomEventInit", "Event", "EventTarget", "Request", "RequestInit", "RequestMode", "Response", "Headers", "History", "HtmlFormElement", "HtmlInputElement", "HtmlDialogElement", "KeyboardEvent", "MouseEvent"] }
leptos = { version = "0.8", features = ["csr"] }
leptos_router = "0.8"
leptos-use = { version = "0.16", default-features = false, features = ["storage"] }
