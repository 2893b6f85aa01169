//! Device tunnel of a home-automation hub: the registry of connected devices,
//! the lifecycle of each device's session, and the matching of device replies to
//! the commands that callers sent.
pub mod auth;
pub mod config;
pub mod correlation;
pub mod device;
pub mod message;
pub mod session;
pub mod store;
