//! Vellum: the protocol, the engine and the client of a small order-matching service.
//!
//! - [`message`] is the binary wire protocol and [`wire_laws`] what holds of it.
//! - [`engine`], [`submit`] and [`session`] are the server's decisions: numbering orders,
//!   handing requests to the engine thread, and answering a client.
//! - [`queue`] is the ring buffer between the threads, and the ports to it.
//! - [`client`] is what an interactive client makes of a typed line, and [`client_laws`] what
//!   holds of such lines.
//! - [`server_laws`] is what holds of server and client together.
pub mod client;
pub mod client_laws;
pub mod engine;
pub mod le;
pub mod message;
pub mod queue;
pub mod server_laws;
pub mod session;
pub mod submit;
pub mod text;
pub mod wire_laws;

pub use message::{read_message, Message, Side};
