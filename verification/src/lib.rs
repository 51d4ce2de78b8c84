//! A small engine for watching and editing 32-bit values inside another
//! running process: pointer chains, four-byte transfers, and a periodic
//! freeze over a table of slots.
//!
//! The engine itself never touches the operating system. Every operation
//! is a state machine that says what it needs next and is told what came
//! back, so that each decision is checked for every answer a host can give.
//!
//! One operation is one [`session::Session`]. Whoever owns the handle to
//! the other process serves it like this:
//!
//! ```text
//! let mut session = engine.read_named("sun_value");
//! while !session.finished() {
//!     let reply = host.perform(&session.request());
//!     session.advance(&reply);
//! }
//! engine.settle(&session);
//! ```
//!
//! [`simulation::SimulatedHost`] is such a host, made of plain values. The
//! laws in [`outcomes`] say what every session comes to on it, and the
//! functions in [`driver`] run whole operations against it.

pub mod access;
pub mod chain;
pub mod driver;
pub mod engine;
pub mod error;
pub mod memory;
pub mod outcomes;
pub mod parse;
pub mod polling;
pub mod resolve;
pub mod session;
pub mod simulation;
