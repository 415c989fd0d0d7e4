[package]
name = "multitool-core"
version = "0.1.0"
edition = "2021"
publish = false

[dependencies]
image = { version = "=0.25.10", default-features = false, features = ["png", "jpeg", "webp", "bmp", "tiff", "gif", "ico", "tga", "pnm", "qoi"] }
tokio-util = "=0.7.20"
serde = { version = "=1.0.229", features = ["derive"] }
thiserror = "=2.0.21"
symphonia = { version = "=0.6.1", features = ["mp3"] }
claxon = "=0.4.3"
hound = "=3.5.1"
flacenc = "=0.4.0"
mp3lame-encoder = "=0.2.5"
vorbis_rs = "=0.5.6"
pdfium-render = { version = "=0.8.37", features = ["sync"] }
printpdf = "=0.7.0"
serde_json = "=1.0.154"
