//! What a password gate asks of its surroundings.

use vstd::prelude::*;
use crate::model::{outcomes_of, payload_of, transcript_of};

verus! {

/// The text sent at boot and after every attempt: `"\nEnter password: \n"`.
pub const PROMPT_TEXT: [u8; 18] = [
    10, 69, 110, 116, 101, 114, 32, 112, 97, 115, 115, 119, 111, 114, 100, 58, 32, 10,
];

/// The text sent on a match: `"\nUnlock successful!\n"`.
pub const SUCCESS_TEXT: [u8; 20] = [
    10, 85, 110, 108, 111, 99, 107, 32, 115, 117, 99, 99, 101, 115, 115, 102, 117, 108, 33, 10,
];

/// The text sent on a mismatch: `"\nIncorrect password. Locked!\n"`.
pub const FAILURE_TEXT: [u8; 29] = [
    10, 73, 110, 99, 111, 114, 114, 101, 99, 116, 32, 112, 97, 115, 115, 119, 111, 114, 100, 46,
    32, 76, 111, 99, 107, 101, 100, 33, 10,
];

/// The judgement on one full attempt.
#[derive(Clone, Copy, Debug, PartialEq, Eq, Structural)]
pub enum Outcome {
    /// The attempt equals the secret.
    Matched,
    /// The attempt differs from the secret in at least one byte.
    NotMatched,
}

/// One thing the caller has to do, in the order given.
#[derive(Clone, Copy, Debug, PartialEq, Eq, Structural)]
pub enum Action {
    /// Send this received byte back to the transport.
    Echo(u8),
    /// Send the result text of this outcome to the transport.
    Announce(Outcome),
    /// Invoke the handler of this outcome: success or failure.
    Dispatch(Outcome),
    /// Send the prompt text to the transport.
    Prompt,
}

/// A fresh vector with the bytes of `text`.
fn copy_bytes(text: &[u8]) -> (out: Vec<u8>)
    ensures
        out@ == text@,
{
    let mut out: Vec<u8> = Vec::new();
    let mut i: usize = 0;
    while i < text.len()
        invariant
            i <= text@.len(),
            out@ == text@.take(i as int),
        decreases text@.len() - i,
    {
        out.push(text[i]);
        i += 1;
    }
    out
}

/// The bytes that `action` sends to the transport; none for a handler.
pub fn payload(action: Action) -> (out: Vec<u8>)
    ensures
        out@ == payload_of(action),
{
    match action {
        Action::Echo(b) => {
            let mut out: Vec<u8> = Vec::new();
            out.push(b);
            out
        },
        Action::Announce(Outcome::Matched) => copy_bytes(&SUCCESS_TEXT),
        Action::Announce(Outcome::NotMatched) => copy_bytes(&FAILURE_TEXT),
        Action::Dispatch(_) => Vec::new(),
        Action::Prompt => copy_bytes(&PROMPT_TEXT),
    }
}

/// Everything that `actions` send to the transport, in order.
pub fn transcript(actions: &Vec<Action>) -> (out: Vec<u8>)
    ensures
        out@ == transcript_of(actions@),
{
    let mut out: Vec<u8> = Vec::new();
    let mut i: usize = 0;
    while i < actions.len()
        invariant
            i <= actions@.len(),
            out@ == transcript_of(actions@.take(i as int)),
        decreases actions@.len() - i,
    {
        let mut bytes = payload(actions[i]);
        out.append(&mut bytes);
        proof {
            assert(actions@.take(i + 1).drop_last() =~= actions@.take(i as int));
        }
        i += 1;
    }
    proof {
        assert(actions@.take(actions@.len() as int) =~= actions@);
    }
    out
}

/// The outcomes that `actions` hand to the handlers, in order.
pub fn outcomes(actions: &Vec<Action>) -> (out: Vec<Outcome>)
    ensures
        out@ == outcomes_of(actions@),
{
    let mut out: Vec<Outcome> = Vec::new();
    let mut i: usize = 0;
    while i < actions.len()
        invariant
            i <= actions@.len(),
            out@ == outcomes_of(actions@.take(i as int)),
        decreases actions@.len() - i,
    {
        proof {
            assert(actions@.take(i + 1).drop_last() =~= actions@.take(i as int));
        }
        match actions[i] {
            Action::Dispatch(outcome) => {
                out.push(outcome);
            },
            _ => {},
        }
        i += 1;
    }
    proof {
        assert(actions@.take(actions@.len() as int) =~= actions@);
    }
    out
}

/// What is owed at boot, before any byte has arrived: the prompt.
pub fn boot_actions() -> (actions: Vec<Action>)
    ensures
        actions@ == seq![Action::Prompt],
{
    let mut actions: Vec<Action> = Vec::new();
    actions.push(Action::Prompt);
    actions
}

} // verus!
