//! Hermes ACP integration.
//!
//! * [`protocol`] is the wire and nothing else: pure, IO-free framing.
//! * [`locate`] decides where an installed Hermes is and what environment its
//!   child process gets.
//! * [`runtime`] is the state of one agent run and every decision made about
//!   it, derived from what the agent actually says.

pub mod protocol;
pub mod locate;
pub mod runtime;
pub mod run_state;
pub mod lines;
pub mod laws;
