//! Verified core of the VR lab server: the messages sent to headsets, the
//! state kept per headset and for the whole server, and the decisions the
//! network loops and the web API take.

pub mod models;
pub mod registry;
pub mod server;
pub mod api;
pub mod frame;
