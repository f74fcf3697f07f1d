//! Chat Completions compatibility layer of Grow CLI: the streaming state
//! machine that turns Chat Completions chunks into response events, the
//! mapping of response items and tools into Chat Completions requests, the
//! GrowthCircle tool filter, fallback model metadata with its configuration
//! overrides, and the choice of the configuration directory.

pub mod text;
pub mod json;
pub mod model;
pub mod chat_stream;
pub mod chat_request;
pub mod chat_json;
pub mod provider;
pub mod home;
pub mod model_info;
pub mod stream_laws;
pub mod request_laws;
