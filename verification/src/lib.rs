//! Rendezvous hole-punching library.
//!
//! A long-lived backend service behind a NAT becomes reachable by frontend
//! clients through a rendezvous broker: the broker matches a frontend and a
//! backend by logical name, introduces each to the other's public transport
//! address, and both sides punch UDP holes toward each other until a
//! bidirectional path opens. This crate holds the verified core: the compact
//! binary wire codec, the broker's presence registry and matching step, and
//! the frontend and backend handshake state machines. Socket I/O and the
//! secure transport layered on the punched path live outside the library.

pub mod addr;
pub mod backend;
pub mod cli;
pub mod endpoint;
pub mod frontend;
pub mod iostream;
pub mod layer;
pub mod message;
pub mod server;

pub use addr::SockAddr;
pub use backend::Backend;
pub use cli::{Cli, CliKind};
pub use endpoint::Kind;
pub use frontend::Frontend;
pub use iostream::BiStream;
pub use message::{ConnMessage, FmtError, Message, MessageKind, StunMessage};
pub use server::StunServer;
