//! The state of a password gate and the operations on it.

use vstd::prelude::*;
use crate::action::{Action, Outcome};
use crate::model::{
    classify, delivered, prefix, run_actions, run_buffer, run_pending, step_actions,
    step_pending, stored, stored_buffer, verdict_actions,
};
use crate::secret::{matches_secret, CAPACITY};

verus! {

/// The input window: a buffer of `CAPACITY` bytes and the number of bytes
/// of the current attempt that it holds.
///
/// Its view is the pending attempt, the bytes below the fill index. What
/// lies at or above the fill index is stale and is never read.
pub struct PasswordGate {
    window: [u8; 7],
    fill: usize,
}

impl View for PasswordGate {
    type V = Seq<u8>;

    closed spec fn view(&self) -> Seq<u8> {
        self.window@.take(self.fill as int)
    }
}

impl PasswordGate {
    /// The fill index lies within the window.
    pub closed spec fn wf(&self) -> bool {
        self.fill <= CAPACITY
    }

    /// The whole buffer, stale bytes included.
    pub closed spec fn buffer(&self) -> Seq<u8> {
        self.window@
    }

    /// A well-formed gate holds at most `CAPACITY` pending bytes, and they
    /// are the first bytes of its buffer.
    pub proof fn lemma_pending_in_buffer(&self)
        requires
            self.wf(),
        ensures
            self@.len() <= CAPACITY,
            self.buffer().len() == CAPACITY,
            self@ == self.buffer().take(self@.len() as int),
    {
    }

    /// A gate with nothing pending.
    pub fn new() -> (gate: Self)
        ensures
            gate.wf(),
            gate@ == Seq::<u8>::empty(),
            gate.buffer() == Seq::new(CAPACITY as nat, |i: int| 0u8),
    {
        PasswordGate { window: [0u8; 7], fill: 0 }
    }

    /// The fill index: how many bytes of the current attempt are held.
    pub fn fill(&self) -> (n: usize)
        requires
            self.wf(),
        ensures
            n == self@.len(),
            n <= CAPACITY,
    {
        self.fill
    }

    /// Whether the window holds a whole attempt.
    pub fn is_full(&self) -> (full: bool)
        requires
            self.wf(),
        ensures
            full == (self@.len() == CAPACITY),
    {
        self.fill == CAPACITY
    }

    /// The whole buffer, stale bytes included.
    pub fn window(&self) -> (bytes: [u8; 7])
        ensures
            bytes@ == self.buffer(),
    {
        self.window
    }

    /// The pending attempt, oldest byte first.
    pub fn pending(&self) -> (bytes: Vec<u8>)
        requires
            self.wf(),
        ensures
            bytes@ == self@,
    {
        let mut bytes: Vec<u8> = Vec::new();
        let mut i: usize = 0;
        while i < self.fill
            invariant
                self.wf(),
                i <= self.fill,
                bytes@ == self.window@.take(i as int),
            decreases self.fill - i,
        {
            bytes.push(self.window[i]);
            i += 1;
        }
        bytes
    }

    /// Puts `b` behind the pending bytes while there is room; a full
    /// window is left as it is.
    pub fn store(&mut self, b: u8)
        requires
            old(self).wf(),
        ensures
            final(self).wf(),
            final(self)@ == stored(old(self)@, b),
            final(self).buffer() == stored_buffer(old(self).buffer(), old(self)@, b),
    {
        if self.fill < CAPACITY {
            self.window[self.fill] = b;
            self.fill += 1;
        }
    }

    /// Judges the full window against the secret and empties it.
    ///
    /// Returns the result text and the handler of the outcome, then the
    /// prompt. The buffer keeps its bytes; only the fill index goes back
    /// to zero.
    pub fn evaluate_attempt(&mut self) -> (actions: Vec<Action>)
        requires
            old(self).wf(),
            old(self)@.len() == CAPACITY,
        ensures
            final(self).wf(),
            final(self)@ == Seq::<u8>::empty(),
            final(self).buffer() == old(self).buffer(),
            actions@ == verdict_actions(classify(old(self)@)),
    {
        assert(self@ =~= self.window@);
        let outcome = if matches_secret(&self.window) {
            Outcome::Matched
        } else {
            Outcome::NotMatched
        };
        self.fill = 0;
        let mut actions: Vec<Action> = Vec::new();
        actions.push(Action::Announce(outcome));
        actions.push(Action::Dispatch(outcome));
        actions.push(Action::Prompt);
        actions
    }

    /// Takes one byte from the transport.
    ///
    /// The echo of `b` comes first. The byte is then stored, and if that
    /// fills the window the attempt is evaluated and the window emptied.
    /// A byte that finds the window full already is echoed and dropped,
    /// and the window is evaluated as it stands.
    pub fn on_byte_received(&mut self, b: u8) -> (actions: Vec<Action>)
        requires
            old(self).wf(),
        ensures
            final(self).wf(),
            final(self)@ == step_pending(old(self)@, b),
            final(self).buffer() == stored_buffer(old(self).buffer(), old(self)@, b),
            actions@ == step_actions(old(self)@, b),
            actions@[0] == Action::Echo(b),
    {
        let mut actions: Vec<Action> = Vec::new();
        actions.push(Action::Echo(b));
        self.store(b);
        if self.fill == CAPACITY {
            let mut verdict = self.evaluate_attempt();
            actions.append(&mut verdict);
        }
        actions
    }

    /// Takes the first `count` bytes of `buf`, or all of it if it holds
    /// fewer, one after the other.
    pub fn on_bytes_received(&mut self, buf: &[u8], count: usize) -> (actions: Vec<Action>)
        requires
            old(self).wf(),
        ensures
            final(self).wf(),
            final(self)@ == run_pending(old(self)@, prefix(buf@, count)),
            final(self).buffer() == run_buffer(
                old(self).buffer(),
                old(self)@,
                prefix(buf@, count),
            ),
            actions@ == run_actions(old(self)@, prefix(buf@, count)),
    {
        let n: usize = if count <= buf.len() {
            count
        } else {
            buf.len()
        };
        let mut actions: Vec<Action> = Vec::new();
        let mut i: usize = 0;
        while i < n
            invariant
                i <= n <= buf@.len(),
                self.wf(),
                self@ == run_pending(old(self)@, buf@.take(i as int)),
                self.buffer() == run_buffer(old(self).buffer(), old(self)@, buf@.take(i as int)),
                actions@ == run_actions(old(self)@, buf@.take(i as int)),
            decreases n - i,
        {
            let mut step = self.on_byte_received(buf[i]);
            actions.append(&mut step);
            proof {
                assert(buf@.take(i + 1).drop_last() =~= buf@.take(i as int));
            }
            i += 1;
        }
        proof {
            assert(buf@.take(buf@.len() as int) =~= buf@);
        }
        actions
    }

    /// Takes what one read of the transport delivered into `buf`.
    ///
    /// A read that reports `count` bytes hands the first `count` bytes of
    /// `buf` on. A failed read changes nothing and owes nothing.
    pub fn on_read<E>(&mut self, buf: &[u8], read: &Result<usize, E>) -> (actions: Vec<Action>)
        requires
            old(self).wf(),
        ensures
            final(self).wf(),
            final(self)@ == run_pending(old(self)@, delivered(buf@, *read)),
            final(self).buffer() == run_buffer(
                old(self).buffer(),
                old(self)@,
                delivered(buf@, *read),
            ),
            actions@ == run_actions(old(self)@, delivered(buf@, *read)),
    {
        match read {
            Ok(count) => self.on_bytes_received(buf, *count),
            Err(_) => Vec::new(),
        }
    }

    /// Takes all of `bytes`, one after the other.
    pub fn feed(&mut self, bytes: &[u8]) -> (actions: Vec<Action>)
        requires
            old(self).wf(),
        ensures
            final(self).wf(),
            final(self)@ == run_pending(old(self)@, bytes@),
            final(self).buffer() == run_buffer(old(self).buffer(), old(self)@, bytes@),
            actions@ == run_actions(old(self)@, bytes@),
    {
        let count: usize = bytes.len();
        proof {
            assert(prefix(bytes@, count) =~= bytes@);
        }
        self.on_bytes_received(bytes, count)
    }
}

} // verus!
