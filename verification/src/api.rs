//! What the server does for the browser.

pub mod client_log;
pub mod low_latency_ws;
pub mod settings;
pub mod stream;
