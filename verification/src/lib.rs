//! A password gate for a byte-stream transport.
//!
//! It echoes every received byte, gathers bytes into a window of
//! fixed size, and judges each full window against a fixed secret. It
//! performs no input or output itself: every operation returns the list of
//! actions that the caller owes the transport and the two handlers.

pub mod action;
pub mod gate;
pub mod laws;
pub mod model;
pub mod secret;

pub use action::{
    boot_actions, outcomes, payload, transcript, Action, Outcome, FAILURE_TEXT, PROMPT_TEXT,
    SUCCESS_TEXT,
};
pub use gate::PasswordGate;
pub use secret::{matches_secret, CAPACITY, SECRET};
