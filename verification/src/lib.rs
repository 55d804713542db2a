//! The logic of a voice-assistant device: settings, set-up over HTTP, the display, the status
//! LED, updates over the air and the way the device starts.
pub mod api;
pub mod boards;
pub mod boot;
pub mod device;
pub mod http;
pub mod json;
pub mod keys;
pub mod network;
pub mod page;
pub mod response;
pub mod script;
pub mod server_url;
pub mod setting;
pub mod store;
pub mod text;
