//! Verified core of a remote-session streaming server: the wire protocol
//! (JSON envelope and binary frame layout), the per-connection session state
//! machine, the bounded session registry, the capture-source bookkeeping, and
//! the per-session filesystem isolation sandbox.

pub mod app_stream;
pub mod binframe;
pub mod desktop_stream;
pub mod digits;
pub mod isolation;
pub mod json;
pub mod loop_order;
pub mod protocol;
pub mod registry;
pub mod session;
pub mod text;
