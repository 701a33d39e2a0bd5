//! The decisions of the user-space ring consumer. The daemon waits for the ring to
//! become readable, drains it, and checks for shutdown; this state machine says what
//! to do after each of those steps and keeps the counters, while the daemon does the
//! waiting and the dequeueing.
use vstd::prelude::*;
use crate::ring::Ring;

verus! {

/// Wait before the first wake-up, in seconds.
pub const FIRST_WAIT_SECS: u64 = 30;

/// Wait between later wake-ups, in seconds.
pub const WAIT_SECS: u64 = 5;

/// Modulus of the counters, which wrap like the atomic adds they stand for.
pub open spec fn counter_modulus() -> int {
    0x1_0000_0000_0000_0000
}

/// `x` advanced by `n` on a wrapping 64-bit counter.
pub open spec fn advanced(x: u64, n: int) -> u64 {
    ((x + n) % counter_modulus()) as u64
}

/// The counter bundle of the hardworker daemon.
#[derive(Clone, Copy, Debug, PartialEq, Eq)]
pub struct Counters {
    /// Records of the expected length.
    pub success: u64,
    /// Kept for the counter surface; no step of the consumer changes it.
    pub match_fail: u64,
    /// Records of any other length.
    pub align_fail: u64,
    /// Wake-ups that found the ring empty.
    pub guard_fail: u64,
}

/// How a wait for readability ended.
#[derive(Clone, Copy, Debug, PartialEq, Eq)]
pub enum WaitOutcome {
    Readable,
    TimedOut,
    Failed,
}

/// What the daemon does next.
#[derive(Clone, Copy, Debug, PartialEq, Eq)]
pub enum Step {
    /// Dequeue records until the ring is empty.
    Drain,
    /// Wait for readability again.
    Wait,
    /// Leave the loop.
    Exit,
}

/// How one dequeued record was accounted.
#[derive(Clone, Copy, Debug, PartialEq, Eq)]
pub enum EntryKind {
    /// The first record of the expected length: it became the reference (and is dumped).
    First,
    /// A later record of the expected length.
    Counted,
    /// A record of another length.
    Misaligned,
}

/// The consumer's state.
pub struct Consumer {
    /// The expected record length.
    pub size: usize,
    pub counters: Counters,
    /// The first record of the expected length, once one came.
    pub reference: Option<Vec<u8>>,
    /// Whether the first wait is over.
    pub waited: bool,
}

/// Advances a counter by one, wrapping.
fn bump(x: u64) -> (r: u64)
    ensures
        r == advanced(x, 1),
{
    x.wrapping_add(1)
}

impl Consumer {
    /// A consumer of records of `size` bytes, with zero counters and no reference.
    pub fn new(size: usize) -> (r: Consumer)
        ensures
            r.size == size,
            r.counters == (Counters { success: 0, match_fail: 0, align_fail: 0, guard_fail: 0 }),
            r.reference is None,
            !r.waited,
    {
        Consumer {
            size,
            counters: Counters { success: 0, match_fail: 0, align_fail: 0, guard_fail: 0 },
            reference: None,
            waited: false,
        }
    }

    /// How long the next wait lasts: longer on the first entry.
    pub fn wait_timeout_secs(&self) -> (r: u64)
        ensures
            r == (if self.waited {
                WAIT_SECS
            } else {
                FIRST_WAIT_SECS
            }),
    {
        if self.waited {
            WAIT_SECS
        } else {
            FIRST_WAIT_SECS
        }
    }

    /// After a wait: drain when readable, leave on a failed wait, and on a timeout
    /// leave if shutdown was requested and wait again otherwise.
    pub fn on_wait(&mut self, outcome: WaitOutcome, shutdown: bool) -> (r: Step)
        ensures
            final(self).waited,
            final(self).size == old(self).size,
            final(self).counters == old(self).counters,
            final(self).reference == old(self).reference,
            r == match outcome {
                WaitOutcome::Readable => Step::Drain,
                WaitOutcome::Failed => Step::Exit,
                WaitOutcome::TimedOut => if shutdown {
                    Step::Exit
                } else {
                    Step::Wait
                },
            },
    {
        self.waited = true;
        match outcome {
            WaitOutcome::Readable => Step::Drain,
            WaitOutcome::Failed => Step::Exit,
            WaitOutcome::TimedOut => if shutdown {
                Step::Exit
            } else {
                Step::Wait
            },
        }
    }

    /// Accounts one dequeued record: one of the expected length counts as a success
    /// (and becomes the reference if there is none yet); any other counts as misaligned.
    pub fn on_entry(&mut self, entry: Vec<u8>) -> (r: EntryKind)
        ensures
            final(self).size == old(self).size,
            final(self).waited == old(self).waited,
            final(self).counters.match_fail == old(self).counters.match_fail,
            final(self).counters.guard_fail == old(self).counters.guard_fail,
            entry@.len() == old(self).size ==> {
                &&& final(self).counters.success == advanced(old(self).counters.success, 1)
                &&& final(self).counters.align_fail == old(self).counters.align_fail
                &&& old(self).reference is None ==> r == EntryKind::First
                    && (final(self).reference matches Some(e) && e@ == entry@)
                &&& old(self).reference is Some ==> r == EntryKind::Counted && final(self).reference
                    == old(self).reference
            },
            entry@.len() != old(self).size ==> {
                &&& r == EntryKind::Misaligned
                &&& final(self).counters.success == old(self).counters.success
                &&& final(self).counters.align_fail == advanced(old(self).counters.align_fail, 1)
                &&& final(self).reference == old(self).reference
            },
    {
        if entry.len() == self.size {
            self.counters.success = bump(self.counters.success);
            if self.reference.is_none() {
                self.reference = Some(entry);
                EntryKind::First
            } else {
                EntryKind::Counted
            }
        } else {
            self.counters.align_fail = bump(self.counters.align_fail);
            EntryKind::Misaligned
        }
    }

    /// After a drain that took `drained` records: a wake-up that found nothing counts as
    /// a guard failure; then leave if shutdown was requested, else wait again.
    pub fn on_drain_end(&mut self, drained: usize, shutdown: bool) -> (r: Step)
        ensures
            final(self).size == old(self).size,
            final(self).waited == old(self).waited,
            final(self).reference == old(self).reference,
            final(self).counters.success == old(self).counters.success,
            final(self).counters.match_fail == old(self).counters.match_fail,
            final(self).counters.align_fail == old(self).counters.align_fail,
            final(self).counters.guard_fail == (if drained == 0 {
                advanced(old(self).counters.guard_fail, 1)
            } else {
                old(self).counters.guard_fail
            }),
            r == (if shutdown {
                Step::Exit
            } else {
                Step::Wait
            }),
    {
        if drained == 0 {
            self.counters.guard_fail = bump(self.counters.guard_fail);
        }
        if shutdown {
            Step::Exit
        } else {
            Step::Wait
        }
    }

    /// Drains a ring whose records all have the ring's record size, returning how many
    /// records it took. When that size is the expected one every record counts as a
    /// success, none as misaligned.
    pub fn drain(&mut self, ring: &mut Ring) -> (n: usize)
        requires
            old(ring).wf(),
        ensures
            final(ring).wf(),
            final(ring)@.len() == 0,
            final(ring).record_size() == old(ring).record_size(),
            final(ring).capacity_bytes() == old(ring).capacity_bytes(),
            n == old(ring)@.len(),
            final(self).size == old(self).size,
            final(self).waited == old(self).waited,
            final(self).counters.match_fail == old(self).counters.match_fail,
            final(self).counters.guard_fail == old(self).counters.guard_fail,
            old(self).reference is None && n == 0 ==> final(self).reference is None,
            old(ring).record_size() == old(self).size ==> {
                &&& final(self).counters.success == advanced(old(self).counters.success, n as int)
                &&& final(self).counters.align_fail == old(self).counters.align_fail
                &&& old(self).reference is None && n > 0
                    ==> (final(self).reference matches Some(e) && e@ == old(ring)@[0])
                &&& old(self).reference is Some ==> final(self).reference == old(self).reference
            },
            old(ring).record_size() != old(self).size ==> {
                &&& final(self).counters.success == old(self).counters.success
                &&& final(self).counters.align_fail == advanced(
                    old(self).counters.align_fail,
                    n as int,
                )
                &&& final(self).reference == old(self).reference
            },
    {
        let ghost start = ring@;
        let ghost before = *self;
        let total: usize = ring.len();
        let mut n: usize = 0;
        loop
            invariant
                total == start.len(),
                ring.wf(),
                ring.record_size() == old(ring).record_size(),
                ring.capacity_bytes() == old(ring).capacity_bytes(),
                n + ring@.len() == start.len(),
                start == old(ring)@,
                ring@ == start.subrange(n as int, start.len() as int),
                self.size == before.size,
                self.waited == before.waited,
                self.counters.match_fail == before.counters.match_fail,
                self.counters.guard_fail == before.counters.guard_fail,
                ring.record_size() == before.size ==> {
                    &&& self.counters.success == advanced(before.counters.success, n as int)
                    &&& self.counters.align_fail == before.counters.align_fail
                    &&& before.reference is None && n > 0 ==> (self.reference matches Some(e)
                        && e@ == start[0])
                    &&& before.reference is Some ==> self.reference == before.reference
                    &&& before.reference is None && n == 0 ==> self.reference is None
                },
                ring.record_size() != before.size ==> {
                    &&& self.counters.success == before.counters.success
                    &&& self.counters.align_fail == advanced(before.counters.align_fail, n as int)
                    &&& self.reference == before.reference
                },
            ensures
                ring.wf(),
                ring@.len() == 0,
                ring.record_size() == old(ring).record_size(),
                ring.capacity_bytes() == old(ring).capacity_bytes(),
                n == start.len(),
                self.size == before.size,
                self.waited == before.waited,
                self.counters.match_fail == before.counters.match_fail,
                self.counters.guard_fail == before.counters.guard_fail,
                before.reference is None && n == 0 ==> self.reference is None,
                ring.record_size() == before.size ==> {
                    &&& self.counters.success == advanced(before.counters.success, n as int)
                    &&& self.counters.align_fail == before.counters.align_fail
                    &&& before.reference is None && n > 0 ==> (self.reference matches Some(e)
                        && e@ == start[0])
                    &&& before.reference is Some ==> self.reference == before.reference
                },
                ring.record_size() != before.size ==> {
                    &&& self.counters.success == before.counters.success
                    &&& self.counters.align_fail == advanced(before.counters.align_fail, n as int)
                    &&& self.reference == before.reference
                },
            decreases ring@.len(),
        {
            match ring.next() {
                None => {
                    break;
                },
                Some(e) => {
                    proof {
                        vstd::arithmetic::div_mod::lemma_add_mod_noop(
                            before.counters.success + n,
                            1,
                            counter_modulus(),
                        );
                        vstd::arithmetic::div_mod::lemma_add_mod_noop(
                            before.counters.align_fail + n,
                            1,
                            counter_modulus(),
                        );
                        vstd::arithmetic::div_mod::lemma_small_mod(1, counter_modulus() as nat);
                        assert(start[n as int] == e@);
                    }
                    self.on_entry(e);
                    n = n + 1;
                    assert(ring@ =~= start.subrange(n as int, start.len() as int));
                },
            }
        }
        n
    }
}

} // verus!
