[package]
name = "video_chat"
version = "0.1.0"
edition = "2021"
publish = false

[dependencies]
serde = { version = "=1.0.229", features = ["derive"] }
serde_json = "=1.0.154"
thiserror = "=2.0.21"
anyhow = "=1.0.104"
log = "=0.4.35"
tracing = "=0.1.44"
tracing-subscriber = "=0.3.23"
chrono = "=0.4.45"
tokio = { version = "=1.54.1", features = ["full"] }
axum = { version = "0.7.9", features = ["ws"] }
tower-http = { version = "0.5.2", features = ["fs"] }
futures-util = "=0.3.34"
dotenv = "=0.15.0"
webrtc = "=0.11.0"
wasm-bindgen = "=0.2.130"
wasm-bindgen-futures = "=0.4.80"
js-sys = "=0.3.107"
web-sys = { version = "=0.3.107", features = ["RtcPeerConnection", "RtcDataChannel", "RtcDataChannelState", "RtcConfiguration", "RtcIceServer", "RtcSessionDescriptionInit", "RtcSdpType", "RtcIceCandidate", "RtcIceCandidateInit", "RtcPeerConnectionIceEvent", "RtcRtpSender", "RtcRtpTransceiver", "RtcRtpTransceiverInit", "RtcRtpTransceiverDirection", "RtcRtpEncodingParameters", "RtcTrackEvent", "MediaStream", "MediaStreamTrack", "MessageEvent", "ErrorEvent", "WebSocket", "Window", "Document", "Element", "HtmlElement", "HtmlMediaElement", "CustomEvent", "CustomEventInit", "Event", "EventTarget"] }
serde-wasm-bindgen = "=0.6.5"
sqlite-wasm-rs = "0.3.8"
console_error_panic_hook = "=0.1.7"
wasm-logger = "=0.2.0"
