//! The rules of a local HTTP forwarding proxy.

pub mod cli;
pub mod forward;
pub mod forward_laws;
pub mod headers;
pub mod headers_laws;
pub mod lifecycle;
pub mod operation_laws;
pub mod proxy;
pub mod target;
pub mod target_laws;
pub mod text;
pub mod text_laws;
pub mod tunnel;
pub mod tunnel_laws;
