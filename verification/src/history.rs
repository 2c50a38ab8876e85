//! A short memory of the instructions that ran last, for display.

use crate::opcode::OpCode;
use std::collections::VecDeque;
use vstd::prelude::*;

verus! {

/// A history never grows to this many instructions.
pub const HISTORY_LIMIT: usize = 32;

/// The log `log` after `op` was added at its end: when that makes it
/// [`HISTORY_LIMIT`] long or longer, the oldest instruction is dropped.
pub open spec fn recorded(log: Seq<OpCode>, op: OpCode) -> Seq<OpCode> {
    let longer = log.push(op);
    if longer.len() >= HISTORY_LIMIT {
        longer.drop_first()
    } else {
        longer
    }
}

/// Recording keeps a log short of the limit short of it, puts the new
/// instruction last, and keeps the others in their order.
pub proof fn lemma_recorded(log: Seq<OpCode>, op: OpCode)
    requires
        log.len() < HISTORY_LIMIT,
    ensures
        0 < recorded(log, op).len() < HISTORY_LIMIT,
        recorded(log, op).last() == op,
        recorded(log, op).len() == if log.len() + 1 < HISTORY_LIMIT {
            log.len() + 1
        } else {
            log.len()
        },
        forall|i: int|
            0 <= i < recorded(log, op).len() - 1 ==> recorded(log, op)[i] == log[i + log.len() + 1
                - recorded(log, op).len()],
{
}

/// The instructions that a machine ran last, oldest first.
pub struct History {
    entries: VecDeque<OpCode>,
}

impl History {
    /// The instructions held, oldest first.
    pub closed spec fn view(&self) -> Seq<OpCode> {
        self.entries@
    }

    /// An empty history.
    pub fn new() -> (history: Self)
        ensures
            history@ == Seq::<OpCode>::empty(),
    {
        History { entries: VecDeque::with_capacity(HISTORY_LIMIT) }
    }

    /// Adds `op` as the newest instruction, and forgets the oldest one when
    /// the history would reach [`HISTORY_LIMIT`] instructions.
    pub fn record(&mut self, op: OpCode)
        ensures
            final(self)@ == recorded(old(self)@, op),
    {
        self.entries.push_back(op);
        if self.entries.len() >= HISTORY_LIMIT {
            self.entries.pop_front();
        }
    }

    /// The number of instructions held.
    pub fn len(&self) -> (len: usize)
        ensures
            len == self@.len(),
    {
        self.entries.len()
    }

    /// The `i`-th instruction held, counted from the oldest, if there are
    /// that many.
    pub fn get(&self, i: usize) -> (op: Option<OpCode>)
        ensures
            op == if i < self@.len() {
                Some(self@[i as int])
            } else {
                None
            },
    {
        if i < self.entries.len() {
            Some(self.entries[i])
        } else {
            None
        }
    }
}

} // verus!
