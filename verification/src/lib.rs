//! Restreams the cameras of an account: what is asked of the service, what is said to the cameras,
//! how their media are put together, and what the HTTP endpoints answer. The connections
//! themselves are made by the caller.

pub mod auth;
pub mod backoff;
pub mod call;
pub mod camera;
pub mod config;
pub mod h265;
pub mod ice;
pub mod json;
pub mod laws;
pub mod sdp;
pub mod server;
pub mod settings;
pub mod stream;
pub mod text;
pub mod util;
pub mod ws;
