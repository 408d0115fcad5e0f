[package]
name = "nova"
version = "0.1.0"
edition = "2021"
publish = false

[dependencies]
bollard-stubs = "=1.44.0-rc.2"
derive-new = "*"
futures-core = "0.3"
futures-util = "0.3"
hex = "0.4"
http = "1"
http-body-util = "0.1"
hyper = { version = "1", features = ["client", "http1"] }
hyper-util = { version = "0.1", features = ["client-legacy", "http1", "tokio"] }
hyperlocal-next = "*"
nonempty = "*"
pin-project-lite = "0.2"
serde = { version = "1", features = ["derive"] }
serde_derive = "1"
serde_json = "1"
serde_urlencoded = "0.7"
time = "0.3"
tokio = { version = "1", features = ["macros", "rt-multi-thread", "time"] }
tokio-util = { version = "0.7", features = ["codec"] }
url = "2"
