//! CONNECT tunnels over authenticated HTTP/3, with no TCP or direct fallback.
//!
//! The library holds what a tunnel decides: which configurations and destinations it accepts, what
//! a connection to the proxy is made with, which session a dial uses, what a CONNECT request says
//! and what its answer means, and how the streams read, write and end. Sockets, tasks and timers
//! stay with the caller: it performs the step that a stage or an action names, and hands back what
//! happened.
pub mod authority;
pub mod bootstrap;
pub mod config;
pub mod credentials;
pub mod dial;
pub mod error;
pub mod lifecycle;
pub mod outside;
pub mod pipe;
pub mod provider;
pub mod pump;
pub mod read;
pub mod sessions;
pub mod text;
pub mod udp;
pub mod write;
