//! A password gate as mathematics: what one byte, and a stream of bytes, does to
//! the pending attempt, and which actions it gives rise to.

use vstd::prelude::*;
use crate::action::{Action, Outcome, FAILURE_TEXT, PROMPT_TEXT, SUCCESS_TEXT};
use crate::secret::{CAPACITY, SECRET};

verus! {

/// The judgement on a full attempt: `Matched` exactly for the secret.
pub open spec fn classify(attempt: Seq<u8>) -> Outcome {
    if attempt == SECRET@ {
        Outcome::Matched
    } else {
        Outcome::NotMatched
    }
}

/// What an evaluation owes: the result text, the handler, the prompt.
pub open spec fn verdict_actions(outcome: Outcome) -> Seq<Action> {
    seq![Action::Announce(outcome), Action::Dispatch(outcome), Action::Prompt]
}

/// The pending attempt once `b` has been offered to it: appended while
/// there is room, dropped when the window is already full.
pub open spec fn stored(pending: Seq<u8>, b: u8) -> Seq<u8> {
    if pending.len() < CAPACITY {
        pending.push(b)
    } else {
        pending
    }
}

/// The whole buffer once `b` has been offered to it: written at the fill
/// index while there is room, untouched when the window is already full.
/// An evaluation leaves the buffer as it is.
pub open spec fn stored_buffer(buffer: Seq<u8>, pending: Seq<u8>, b: u8) -> Seq<u8> {
    if pending.len() < CAPACITY {
        buffer.update(pending.len() as int, b)
    } else {
        buffer
    }
}

/// The pending attempt after `b` has been received.
pub open spec fn step_pending(pending: Seq<u8>, b: u8) -> Seq<u8> {
    if stored(pending, b).len() == CAPACITY {
        Seq::empty()
    } else {
        stored(pending, b)
    }
}

/// The actions that receiving `b` gives rise to, in order.
pub open spec fn step_actions(pending: Seq<u8>, b: u8) -> Seq<Action> {
    if stored(pending, b).len() == CAPACITY {
        seq![Action::Echo(b)] + verdict_actions(classify(stored(pending, b)))
    } else {
        seq![Action::Echo(b)]
    }
}

/// The pending attempt after all of `input` has been received.
pub open spec fn run_pending(pending: Seq<u8>, input: Seq<u8>) -> Seq<u8>
    decreases input.len(),
{
    if input.len() == 0 {
        pending
    } else {
        step_pending(run_pending(pending, input.drop_last()), input.last())
    }
}

/// The whole buffer after all of `input` has been received.
pub open spec fn run_buffer(buffer: Seq<u8>, pending: Seq<u8>, input: Seq<u8>) -> Seq<u8>
    decreases input.len(),
{
    if input.len() == 0 {
        buffer
    } else {
        stored_buffer(
            run_buffer(buffer, pending, input.drop_last()),
            run_pending(pending, input.drop_last()),
            input.last(),
        )
    }
}

/// The actions that receiving all of `input` gives rise to, in order.
pub open spec fn run_actions(pending: Seq<u8>, input: Seq<u8>) -> Seq<Action>
    decreases input.len(),
{
    if input.len() == 0 {
        Seq::empty()
    } else {
        run_actions(pending, input.drop_last()) + step_actions(
            run_pending(pending, input.drop_last()),
            input.last(),
        )
    }
}

/// The first `count` bytes of `buf`, or all of it if it holds fewer.
pub open spec fn prefix(buf: Seq<u8>, count: usize) -> Seq<u8> {
    if count <= buf.len() {
        buf.take(count as int)
    } else {
        buf
    }
}

/// The bytes that a read into `buf` delivered: the reported prefix, or
/// nothing where the read failed.
pub open spec fn delivered<E>(buf: Seq<u8>, read: Result<usize, E>) -> Seq<u8> {
    match read {
        Ok(count) => prefix(buf, count),
        Err(_) => Seq::empty(),
    }
}

/// One echo per byte of `input`, in order.
pub open spec fn echo_actions(input: Seq<u8>) -> Seq<Action> {
    Seq::new(input.len(), |i: int| Action::Echo(input[i]))
}

/// The bytes that an action sends to the transport.
pub open spec fn payload_of(action: Action) -> Seq<u8> {
    match action {
        Action::Echo(b) => seq![b],
        Action::Announce(Outcome::Matched) => SUCCESS_TEXT@,
        Action::Announce(Outcome::NotMatched) => FAILURE_TEXT@,
        Action::Dispatch(_) => Seq::empty(),
        Action::Prompt => PROMPT_TEXT@,
    }
}

/// Everything that `actions` send to the transport, in order.
pub open spec fn transcript_of(actions: Seq<Action>) -> Seq<u8>
    decreases actions.len(),
{
    if actions.len() == 0 {
        Seq::empty()
    } else {
        transcript_of(actions.drop_last()) + payload_of(actions.last())
    }
}

/// The bytes that `actions` echo, in order.
pub open spec fn echoes_of(actions: Seq<Action>) -> Seq<u8>
    decreases actions.len(),
{
    if actions.len() == 0 {
        Seq::empty()
    } else {
        match actions.last() {
            Action::Echo(b) => echoes_of(actions.drop_last()).push(b),
            _ => echoes_of(actions.drop_last()),
        }
    }
}

/// The result text of an outcome.
pub open spec fn result_text(outcome: Outcome) -> Seq<u8> {
    payload_of(Action::Announce(outcome))
}

/// The outcomes that `actions` hand to the handlers, in order.
pub open spec fn outcomes_of(actions: Seq<Action>) -> Seq<Outcome>
    decreases actions.len(),
{
    if actions.len() == 0 {
        Seq::empty()
    } else {
        match actions.last() {
            Action::Dispatch(outcome) => outcomes_of(actions.drop_last()).push(outcome),
            _ => outcomes_of(actions.drop_last()),
        }
    }
}

} // verus!
