//! The delivery buffer: lines accumulate until enough of them are pending
//! or the oldest has waited long enough, then they are written as one
//! batch. A failed write keeps every line and backs off exponentially; a
//! successful one empties the buffer and resets the backoff.
//!
//! The buffer only decides; whoever owns it performs the writes and the
//! waits, reads the clock, and reports back. Times are milliseconds of a
//! monotonic clock.

use crate::message::views;
use vstd::prelude::*;

verus! {

/// Delay after the first failed write, in milliseconds.
pub const BASE_DELAY_MILLIS: u64 = 8;

/// Longest delay between two attempts, in milliseconds.
pub const MAX_DELAY_MILLIS: u64 = 30000;

/// The delay before retrying, once `k` writes in a row have failed and one
/// more fails: it doubles from the base, up to the cap.
pub open spec fn backoff(k: nat) -> nat
    decreases k,
{
    if k == 0 {
        BASE_DELAY_MILLIS as nat
    } else if 2 * backoff((k - 1) as nat) < MAX_DELAY_MILLIS {
        2 * backoff((k - 1) as nat)
    } else {
        MAX_DELAY_MILLIS as nat
    }
}

/// What a buffer holds, as values.
pub struct BufferState {
    pub max_age: nat,
    pub max_amount: nat,
    pub pending: Seq<Seq<char>>,
    pub last_send: nat,
    pub failures: nat,
}

/// Time from `since` to `now`, zero if the clock reads earlier.
pub open spec fn elapsed(now: nat, since: nat) -> nat {
    if now >= since {
        (now - since) as nat
    } else {
        0
    }
}

impl BufferState {
    /// Whether a write is due at `now`.
    pub open spec fn due(self, now: nat) -> bool {
        self.pending.len() > 0 && (self.pending.len() >= self.max_amount || elapsed(
            now,
            self.last_send,
        ) > self.max_age)
    }

    pub open spec fn pushed(self, line: Seq<char>) -> BufferState {
        BufferState { pending: self.pending.push(line), ..self }
    }

    pub open spec fn appended(self, lines: Seq<Seq<char>>) -> BufferState {
        BufferState { pending: self.pending + lines, ..self }
    }

    /// After a successful write at `now`.
    pub open spec fn written(self, now: nat) -> BufferState {
        BufferState { pending: seq![], last_send: now, failures: 0, ..self }
    }

    /// After a failed write: every line is kept.
    pub open spec fn failed(self) -> BufferState {
        BufferState {
            failures: if self.failures >= u64::MAX {
                self.failures
            } else {
                self.failures + 1
            },
            ..self
        }
    }
}

/// The final write at shutdown failed: `unsent` lines are still pending.
#[derive(Debug)]
pub struct DrainError {
    pub unsent: usize,
}

pub struct LineBuffer {
    max_age: u64,
    max_amount: usize,
    buffer: Vec<String>,
    last_send: u64,
    failures: u64,
    next_error_millis: u64,
}

impl View for LineBuffer {
    type V = BufferState;

    closed spec fn view(&self) -> BufferState {
        BufferState {
            max_age: self.max_age as nat,
            max_amount: self.max_amount as nat,
            pending: views(self.buffer@),
            last_send: self.last_send as nat,
            failures: self.failures as nat,
        }
    }
}

impl LineBuffer {
    /// The buffer's invariant: the stored delay is the backoff for the
    /// failures so far.
    pub closed spec fn wf(&self) -> bool {
        self.next_error_millis as nat == backoff(self.failures as nat)
            && self.failures <= u64::MAX
    }

    /// An empty buffer created at `now`.
    pub fn new(max_age: u64, max_amount: usize, now: u64) -> (r: LineBuffer)
        ensures
            r.wf(),
            r@ == (BufferState {
                max_age: max_age as nat,
                max_amount: max_amount as nat,
                pending: seq![],
                last_send: now as nat,
                failures: 0,
            }),
    {
        let r = LineBuffer {
            max_age,
            max_amount,
            buffer: Vec::new(),
            last_send: now,
            failures: 0,
            next_error_millis: BASE_DELAY_MILLIS,
        };
        assert(r@.pending =~= seq![]);
        r
    }

    pub fn push(&mut self, line: String)
        requires
            old(self).wf(),
        ensures
            final(self).wf(),
            final(self)@ == old(self)@.pushed(line@),
    {
        self.buffer.push(line);
        assert(self@.pending =~= old(self)@.pending.push(line@));
    }

    /// Appends `lines` in order.
    pub fn append(&mut self, lines: Vec<String>)
        requires
            old(self).wf(),
        ensures
            final(self).wf(),
            final(self)@ == old(self)@.appended(views(lines@)),
    {
        let mut i: usize = 0;
        let ghost start = self@;
        while i < lines.len()
            invariant
                self.wf(),
                i <= lines@.len(),
                self@ == start.appended(views(lines@.subrange(0, i as int))),
            decreases lines.len() - i,
        {
            let ghost before = self.buffer@;
            self.buffer.push(lines[i].clone());
            assert(views(self.buffer@) =~= views(before).push(lines@[i as int]@));
            assert(views(lines@.subrange(0, i + 1)) =~= views(lines@.subrange(0, i as int)).push(
                lines@[i as int]@,
            ));
            assert(self@.pending =~= start.pending + views(lines@.subrange(0, i + 1)));
            i += 1;
        }
        assert(lines@.subrange(0, lines@.len() as int) =~= lines@);
    }

    /// The lines waiting to be written, oldest first.
    pub fn pending(&self) -> (r: &Vec<String>)
        ensures
            views(r@) == self@.pending,
    {
        &self.buffer
    }

    /// Whether a write is due at `now`.
    pub fn should_write(&self, now: u64) -> (r: bool)
        ensures
            r == self@.due(now as nat),
    {
        let age = if now >= self.last_send {
            now - self.last_send
        } else {
            0
        };
        self.buffer.len() > 0 && (self.buffer.len() >= self.max_amount || age > self.max_age)
    }

    /// Records a successful write of every pending line at `now`.
    pub fn write_succeeded(&mut self, now: u64)
        requires
            old(self).wf(),
        ensures
            final(self).wf(),
            final(self)@ == old(self)@.written(now as nat),
    {
        self.buffer = Vec::new();
        self.last_send = now;
        self.failures = 0;
        self.next_error_millis = BASE_DELAY_MILLIS;
        assert(self@.pending =~= seq![]);
    }

    /// Records a failed write; returns how long to wait before the next
    /// attempt, in milliseconds.
    pub fn write_failed(&mut self) -> (delay: u64)
        requires
            old(self).wf(),
        ensures
            final(self).wf(),
            final(self)@ == old(self)@.failed(),
            delay as nat == backoff(old(self)@.failures),
    {
        proof {
            lemma_backoff_bounded(self.failures as nat);
        }
        let delay = self.next_error_millis;
        if self.failures < u64::MAX {
            self.failures = self.failures + 1;
            let doubled = self.next_error_millis * 2;
            self.next_error_millis = if doubled < MAX_DELAY_MILLIS {
                doubled
            } else {
                MAX_DELAY_MILLIS
            };
        }
        delay
    }
}

impl LineBuffer {
    /// Records the outcome of the forced final write at shutdown. A failure
    /// is reported and keeps every pending line.
    pub fn finish(&mut self, written: bool, now: u64) -> (r: Result<(), DrainError>)
        requires
            old(self).wf(),
        ensures
            final(self).wf(),
            written ==> r is Ok && final(self)@ == old(self)@.written(now as nat),
            !written ==> (r matches Err(e) && e.unsent == old(self)@.pending.len()),
            !written ==> final(self)@ == old(self)@,
    {
        if written {
            self.write_succeeded(now);
            Ok(())
        } else {
            Err(DrainError { unsent: self.buffer.len() })
        }
    }
}

/// The buffer after `lines` were pushed one at a time.
pub open spec fn push_each(b: BufferState, lines: Seq<Seq<char>>) -> BufferState
    decreases lines.len(),
{
    if lines.len() == 0 {
        b
    } else {
        push_each(b, lines.drop_last()).pushed(lines.last())
    }
}

/// Once an empty buffer has received as many lines as its batch size (at
/// least one), a write is due whatever the time, the batch holds exactly
/// those lines in order, and a successful write leaves nothing pending.
pub proof fn lemma_full_batch_flushes(b: BufferState, lines: Seq<Seq<char>>, now: nat)
    requires
        b.pending.len() == 0,
        lines.len() == b.max_amount,
        lines.len() > 0,
    ensures
        push_each(b, lines).due(now),
        push_each(b, lines).pending == lines,
        push_each(b, lines).written(now).pending.len() == 0,
{
    lemma_push_each(b, lines);
}

proof fn lemma_push_each(b: BufferState, lines: Seq<Seq<char>>)
    ensures
        push_each(b, lines) == b.appended(lines),
    decreases lines.len(),
{
    if lines.len() > 0 {
        lemma_push_each(b, lines.drop_last());
        assert(b.pending + lines =~= (b.pending + lines.drop_last()).push(lines.last()));
    } else {
        assert(b.pending + lines =~= b.pending);
    }
}

/// The delay before the next attempt does not decrease as failures
/// accumulate, never exceeds the cap, and is back at the base once a
/// write has succeeded.
pub proof fn lemma_backoff_law(b: BufferState, j: nat, k: nat, now: nat)
    requires
        j <= k,
    ensures
        backoff(j) <= backoff(k) <= MAX_DELAY_MILLIS,
        backoff(b.written(now).failures) == BASE_DELAY_MILLIS,
    decreases k,
{
    lemma_backoff_bounded(k);
    if j < k {
        lemma_backoff_law(b, j, (k - 1) as nat, now);
        lemma_backoff_bounded((k - 1) as nat);
    }
}

/// The backoff never exceeds the cap.
pub proof fn lemma_backoff_bounded(k: nat)
    ensures
        BASE_DELAY_MILLIS <= backoff(k) <= MAX_DELAY_MILLIS,
    decreases k,
{
    if k > 0 {
        lemma_backoff_bounded((k - 1) as nat);
    }
}

} // verus!
