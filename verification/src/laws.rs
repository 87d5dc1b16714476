//! What holds of a password gate on every input.

use vstd::prelude::*;
use crate::action::{Action, Outcome, PROMPT_TEXT};
use crate::model::{
    classify, echo_actions, echoes_of, outcomes_of, result_text, run_actions, run_buffer,
    run_pending, step_actions, transcript_of, verdict_actions,
};
use crate::secret::{CAPACITY, SECRET};

verus! {

/// The outcomes of two lists of actions, one after the other, are the
/// outcomes of the first followed by those of the second.
pub proof fn lemma_outcomes_concat(first: Seq<Action>, second: Seq<Action>)
    ensures
        outcomes_of(first + second) == outcomes_of(first) + outcomes_of(second),
    decreases second.len(),
{
    if second.len() == 0 {
        assert(first + second =~= first);
        assert(outcomes_of(first) + outcomes_of(second) =~= outcomes_of(first));
    } else {
        assert((first + second).drop_last() =~= first + second.drop_last());
        assert((first + second).last() == second.last());
        lemma_outcomes_concat(first, second.drop_last());
        assert(outcomes_of(first + second) =~= outcomes_of(first) + outcomes_of(second));
    }
}

/// The echoes of two lists of actions, one after the other, are the
/// echoes of the first followed by those of the second.
pub proof fn lemma_echoes_concat(first: Seq<Action>, second: Seq<Action>)
    ensures
        echoes_of(first + second) == echoes_of(first) + echoes_of(second),
    decreases second.len(),
{
    if second.len() == 0 {
        assert(first + second =~= first);
        assert(echoes_of(first) + echoes_of(second) =~= echoes_of(first));
    } else {
        assert((first + second).drop_last() =~= first + second.drop_last());
        assert((first + second).last() == second.last());
        lemma_echoes_concat(first, second.drop_last());
        assert(echoes_of(first + second) =~= echoes_of(first) + echoes_of(second));
    }
}

/// The transcript of two lists of actions, one after the other, is the
/// transcript of the first followed by that of the second.
pub proof fn lemma_transcript_concat(first: Seq<Action>, second: Seq<Action>)
    ensures
        transcript_of(first + second) == transcript_of(first) + transcript_of(second),
    decreases second.len(),
{
    if second.len() == 0 {
        assert(first + second =~= first);
        assert(transcript_of(first) + transcript_of(second) =~= transcript_of(first));
    } else {
        assert((first + second).drop_last() =~= first + second.drop_last());
        assert((first + second).last() == second.last());
        lemma_transcript_concat(first, second.drop_last());
        assert(transcript_of(first + second) =~= transcript_of(first) + transcript_of(second));
    }
}

/// A run of echoes dispatches nothing, echoes its bytes, and sends
/// exactly those bytes.
pub proof fn lemma_echo_actions(input: Seq<u8>)
    ensures
        outcomes_of(echo_actions(input)) == Seq::<Outcome>::empty(),
        echoes_of(echo_actions(input)) == input,
        transcript_of(echo_actions(input)) == input,
    decreases input.len(),
{
    if input.len() == 0 {
        assert(input =~= Seq::<u8>::empty());
    } else {
        assert(echo_actions(input).drop_last() =~= echo_actions(input.drop_last()));
        assert(echo_actions(input).last() == Action::Echo(input.last()));
        lemma_echo_actions(input.drop_last());
        assert(input.drop_last().push(input.last()) =~= input);
        assert(input.drop_last() + seq![input.last()] =~= input);
    }
}

/// An evaluation dispatches its outcome once, echoes nothing, and sends
/// the result text followed by the prompt.
pub proof fn lemma_verdict_actions(outcome: Outcome)
    ensures
        outcomes_of(verdict_actions(outcome)) == seq![outcome],
        echoes_of(verdict_actions(outcome)) == Seq::<u8>::empty(),
        transcript_of(verdict_actions(outcome)) == result_text(outcome) + PROMPT_TEXT@,
{
    let three = verdict_actions(outcome);
    let two = seq![Action::Announce(outcome), Action::Dispatch(outcome)];
    let one = seq![Action::Announce(outcome)];
    assert(three.drop_last() =~= two);
    assert(two.drop_last() =~= one);
    let none = Seq::<Action>::empty();
    assert(one.drop_last() =~= none);
    assert(outcomes_of(none) =~= Seq::<Outcome>::empty());
    assert(echoes_of(none) =~= Seq::<u8>::empty());
    assert(transcript_of(none) =~= Seq::<u8>::empty());
    assert(outcomes_of(one) =~= Seq::<Outcome>::empty());
    assert(outcomes_of(two) =~= seq![outcome]);
    assert(echoes_of(one) =~= Seq::<u8>::empty());
    assert(echoes_of(two) =~= Seq::<u8>::empty());
    assert(transcript_of(one) =~= result_text(outcome));
    assert(transcript_of(two) =~= result_text(outcome));
    assert(transcript_of(three) =~= result_text(outcome) + PROMPT_TEXT@);
}

/// Receiving two streams one after the other is receiving their
/// concatenation: the second starts from what the first left pending.
pub proof fn law_run_concat(pending: Seq<u8>, first: Seq<u8>, second: Seq<u8>)
    ensures
        run_pending(pending, first + second) == run_pending(
            run_pending(pending, first),
            second,
        ),
        run_actions(pending, first + second) == run_actions(pending, first) + run_actions(
            run_pending(pending, first),
            second,
        ),
    decreases second.len(),
{
    if second.len() == 0 {
        assert(first + second =~= first);
        assert(run_actions(pending, first) + Seq::<Action>::empty() =~= run_actions(
            pending,
            first,
        ));
    } else {
        assert((first + second).drop_last() =~= first + second.drop_last());
        assert((first + second).last() == second.last());
        law_run_concat(pending, first, second.drop_last());
        let middle = run_pending(pending, first);
        let head = run_actions(pending, first);
        let body = run_actions(middle, second.drop_last());
        let tail = step_actions(run_pending(middle, second.drop_last()), second.last());
        assert((head + body) + tail =~= head + (body + tail));
    }
}

/// The window never holds more than `CAPACITY` bytes, whatever arrives.
pub proof fn law_pending_bounded(pending: Seq<u8>, input: Seq<u8>)
    requires
        pending.len() <= CAPACITY,
    ensures
        run_pending(pending, input).len() <= CAPACITY,
        input.len() > 0 ==> run_pending(pending, input).len() < CAPACITY,
    decreases input.len(),
{
    if input.len() > 0 {
        law_pending_bounded(pending, input.drop_last());
    }
}

/// The pending attempt is always the head of the buffer, and the buffer
/// keeps its length, whatever arrives.
pub proof fn law_pending_heads_buffer(buffer: Seq<u8>, pending: Seq<u8>, input: Seq<u8>)
    requires
        buffer.len() == CAPACITY,
        pending.len() <= CAPACITY,
        pending == buffer.take(pending.len() as int),
    ensures
        run_buffer(buffer, pending, input).len() == CAPACITY,
        run_pending(pending, input).len() <= CAPACITY,
        run_pending(pending, input) == run_buffer(buffer, pending, input).take(
            run_pending(pending, input).len() as int,
        ),
    decreases input.len(),
{
    if input.len() > 0 {
        law_pending_heads_buffer(buffer, pending, input.drop_last());
    }
    assert(run_pending(pending, input) =~= run_buffer(buffer, pending, input).take(
        run_pending(pending, input).len() as int,
    ));
}

/// Every received byte is echoed, and the echo comes before anything
/// else that the byte gives rise to.
pub proof fn law_echo_first(pending: Seq<u8>, b: u8)
    ensures
        step_actions(pending, b)[0] == Action::Echo(b),
        echoes_of(step_actions(pending, b)) == seq![b],
{
    let echo = seq![Action::Echo(b)];
    let none = Seq::<Action>::empty();
    assert(echo.drop_last() =~= none);
    assert(echoes_of(none) =~= Seq::<u8>::empty());
    assert(echoes_of(echo) =~= seq![b]);
    if step_actions(pending, b) != echo {
        let outcome = choose|outcome: Outcome|
            step_actions(pending, b) == echo + verdict_actions(outcome);
        lemma_echoes_concat(echo, verdict_actions(outcome));
        lemma_verdict_actions(outcome);
        assert(echoes_of(echo) + Seq::<u8>::empty() =~= seq![b]);
    }
}

/// The echoes of a stream are the stream itself, byte for byte and in
/// order, whatever was pending before.
pub proof fn law_echo_stream(pending: Seq<u8>, input: Seq<u8>)
    ensures
        echoes_of(run_actions(pending, input)) == input,
    decreases input.len(),
{
    if input.len() == 0 {
        assert(input =~= Seq::<u8>::empty());
    } else {
        law_echo_stream(pending, input.drop_last());
        let before = run_pending(pending, input.drop_last());
        law_echo_first(before, input.last());
        lemma_echoes_concat(
            run_actions(pending, input.drop_last()),
            step_actions(before, input.last()),
        );
        assert(input.drop_last() + seq![input.last()] =~= input);
    }
}

/// Input that does not fill the window is only echoed and kept: no
/// evaluation takes place, no result text and no prompt is sent.
pub proof fn law_partial_input(pending: Seq<u8>, input: Seq<u8>)
    requires
        pending.len() + input.len() < CAPACITY,
    ensures
        run_pending(pending, input) == pending + input,
        run_actions(pending, input) == echo_actions(input),
        outcomes_of(run_actions(pending, input)) == Seq::<Outcome>::empty(),
        transcript_of(run_actions(pending, input)) == input,
    decreases input.len(),
{
    if input.len() == 0 {
        assert(pending + input =~= pending);
        assert(echo_actions(input) =~= Seq::<Action>::empty());
    } else {
        law_partial_input(pending, input.drop_last());
        assert((pending + input.drop_last()).push(input.last()) =~= pending + input);
        assert(echo_actions(input.drop_last()) + seq![Action::Echo(input.last())]
            =~= echo_actions(input));
    }
    lemma_echo_actions(input);
}

/// Input that fills the window exactly is echoed, then judged once: the
/// outcome is that of the pending bytes followed by the input, the result
/// text and the prompt follow the echoes, and nothing is left pending.
pub proof fn law_window_completed(pending: Seq<u8>, input: Seq<u8>)
    requires
        input.len() > 0,
        pending.len() + input.len() == CAPACITY,
    ensures
        run_pending(pending, input) == Seq::<u8>::empty(),
        run_actions(pending, input) == echo_actions(input) + verdict_actions(
            classify(pending + input),
        ),
        outcomes_of(run_actions(pending, input)) == seq![classify(pending + input)],
        transcript_of(run_actions(pending, input)) == input + result_text(
            classify(pending + input),
        ) + PROMPT_TEXT@,
{
    let outcome = classify(pending + input);
    law_partial_input(pending, input.drop_last());
    assert((pending + input.drop_last()).push(input.last()) =~= pending + input);
    assert(echo_actions(input.drop_last()) + (seq![Action::Echo(input.last())]
        + verdict_actions(outcome)) =~= echo_actions(input) + verdict_actions(outcome));
    lemma_echo_actions(input);
    lemma_verdict_actions(outcome);
    lemma_outcomes_concat(echo_actions(input), verdict_actions(outcome));
    lemma_transcript_concat(echo_actions(input), verdict_actions(outcome));
    assert(Seq::<Outcome>::empty() + seq![outcome] =~= seq![outcome]);
    assert(input + (result_text(outcome) + PROMPT_TEXT@) =~= input + result_text(outcome)
        + PROMPT_TEXT@);
}

/// An evaluation does not clear the buffer: after a whole attempt,
/// received with nothing pending, the buffer holds that attempt.
pub proof fn law_attempt_stays_in_buffer(buffer: Seq<u8>, attempt: Seq<u8>)
    requires
        buffer.len() == CAPACITY,
        attempt.len() == CAPACITY,
    ensures
        run_pending(Seq::empty(), attempt) == Seq::<u8>::empty(),
        run_buffer(buffer, Seq::empty(), attempt) == attempt,
{
    let empty = Seq::<u8>::empty();
    let head = attempt.drop_last();
    assert(empty =~= buffer.take(0));
    assert(empty + head =~= head);
    assert(empty + attempt =~= attempt);
    law_partial_input(empty, head);
    law_pending_heads_buffer(buffer, empty, head);
    law_window_completed(empty, attempt);
    let mid = run_buffer(buffer, empty, head);
    assert(run_buffer(buffer, empty, attempt) == mid.update(head.len() as int, attempt.last()));
    assert forall|i: int| 0 <= i < attempt.len() implies run_buffer(buffer, empty, attempt)[i]
        == attempt[i] by {
        if i < head.len() {
            assert(mid.take(head.len() as int)[i] == head[i]);
        }
    }
    assert(run_buffer(buffer, empty, attempt) =~= attempt);
}

/// The secret, received by a gate with nothing pending, is matched
/// exactly once, and the window is empty afterwards.
pub proof fn law_secret_matched(input: Seq<u8>)
    requires
        input == SECRET@,
    ensures
        outcomes_of(run_actions(Seq::empty(), input)) == seq![Outcome::Matched],
        run_pending(Seq::empty(), input) == Seq::<u8>::empty(),
{
    assert(Seq::<u8>::empty() + input =~= input);
    law_window_completed(Seq::empty(), input);
}

/// Any other attempt of `CAPACITY` bytes, received by a gate with nothing
/// pending, is rejected exactly once, and the window is empty afterwards.
pub proof fn law_other_rejected(input: Seq<u8>)
    requires
        input.len() == CAPACITY,
        input != SECRET@,
    ensures
        outcomes_of(run_actions(Seq::empty(), input)) == seq![Outcome::NotMatched],
        run_pending(Seq::empty(), input) == Seq::<u8>::empty(),
{
    assert(Seq::<u8>::empty() + input =~= input);
    law_window_completed(Seq::empty(), input);
}

/// Two attempts in a row are judged one by one, each on its own bytes:
/// the window is empty between them and after them.
pub proof fn law_two_attempts(first: Seq<u8>, second: Seq<u8>)
    requires
        first.len() == CAPACITY,
        second.len() == CAPACITY,
    ensures
        run_pending(Seq::empty(), first) == Seq::<u8>::empty(),
        run_pending(Seq::empty(), first + second) == Seq::<u8>::empty(),
        outcomes_of(run_actions(Seq::empty(), first + second)) == seq![
            classify(first),
            classify(second),
        ],
{
    let empty = Seq::<u8>::empty();
    assert(empty + first =~= first);
    assert(empty + second =~= second);
    law_window_completed(empty, first);
    law_window_completed(empty, second);
    law_run_concat(empty, first, second);
    lemma_outcomes_concat(run_actions(empty, first), run_actions(empty, second));
    assert(seq![classify(first)] + seq![classify(second)] =~= seq![
        classify(first),
        classify(second),
    ]);
}

/// The secret received twice in a row is matched twice.
pub proof fn law_secret_twice()
    ensures
        outcomes_of(run_actions(Seq::empty(), SECRET@ + SECRET@)) == seq![
            Outcome::Matched,
            Outcome::Matched,
        ],
        run_pending(Seq::empty(), SECRET@ + SECRET@) == Seq::<u8>::empty(),
{
    law_two_attempts(SECRET@, SECRET@);
}

} // verus!
