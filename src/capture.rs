//! The decisions of a capture session: which records enter the log, and when
//! the whole log is rewritten to disk. The session's owner reads records,
//! hands each one here, and performs the checkpoints that come back.
//!
//! Between checkpoints new presses exist only in memory, so a crash loses at
//! most the presses after the last completed checkpoint, always fewer than the
//! checkpoint interval.
use vstd::prelude::*;
use vstd::arithmetic::div_mod::{lemma_fundamental_div_mod, lemma_fundamental_div_mod_converse};
use crate::event::{KeyPress, is_press, press_of_record, time_fits};
use crate::keylog::KeyLog;

verus! {

/// The default number of new presses between two checkpoints.
pub const DEFAULT_CHECKPOINT_EVERY: usize = 1000;

/// The abstract state of a capture session.
pub struct CaptureState {
    /// every press of the log, the loaded ones first
    pub log: Seq<KeyPress>,
    /// how many presses of the log the last checkpoint wrote
    pub saved: nat,
    /// the checkpoint interval, in new presses
    pub every: nat,
    /// the byte order of the records
    pub little_endian: bool,
}

/// The state after one raw record.
pub open spec fn step(s: CaptureState, record: Seq<u8>) -> CaptureState {
    if is_press(record, s.little_endian) {
        let log = s.log.push(press_of_record(record, s.little_endian));
        if log.len() - s.saved >= s.every {
            CaptureState { log, saved: log.len(), ..s }
        } else {
            CaptureState { log, ..s }
        }
    } else {
        s
    }
}

/// The state after a sequence of raw records.
pub open spec fn run(s: CaptureState, records: Seq<Seq<u8>>) -> CaptureState
    decreases records.len(),
{
    if records.len() == 0 {
        s
    } else {
        step(run(s, records.drop_last()), records.last())
    }
}

/// The key presses that a sequence of raw records stands for.
pub open spec fn presses_of(records: Seq<Seq<u8>>, little_endian: bool) -> Seq<KeyPress>
    decreases records.len(),
{
    if records.len() == 0 {
        Seq::empty()
    } else {
        let init = presses_of(records.drop_last(), little_endian);
        if is_press(records.last(), little_endian) {
            init.push(press_of_record(records.last(), little_endian))
        } else {
            init
        }
    }
}

/// The state of a session that starts from a loaded (or empty) log.
pub open spec fn start(log: Seq<KeyPress>, every: nat, little_endian: bool) -> CaptureState {
    CaptureState { log, saved: log.len(), every, little_endian }
}

/// Checkpoint durability: after any sequence of records, the log is the
/// loaded log followed by the presses of the records, and the last checkpoint
/// holds the loaded log plus the largest multiple of the interval that does not
/// exceed the number of new presses. So once at least one interval's worth of
/// presses was captured, a crash still leaves at least that many on disk, and
/// never more than were captured.
pub proof fn lemma_checkpoint_durability(
    loaded: Seq<KeyPress>,
    every: nat,
    little_endian: bool,
    records: Seq<Seq<u8>>,
)
    requires
        every > 0,
    ensures
        run(start(loaded, every, little_endian), records).log == loaded + presses_of(
            records,
            little_endian,
        ),
        run(start(loaded, every, little_endian), records).saved == loaded.len() + (presses_of(
            records,
            little_endian,
        ).len() / every) * every,
        presses_of(records, little_endian).len() >= every ==> run(
            start(loaded, every, little_endian),
            records,
        ).saved >= loaded.len() + every,
        run(start(loaded, every, little_endian), records).saved <= run(
            start(loaded, every, little_endian),
            records,
        ).log.len(),
        run(start(loaded, every, little_endian), records).log.len() - run(
            start(loaded, every, little_endian),
            records,
        ).saved < every,
        run(start(loaded, every, little_endian), records).every == every,
        run(start(loaded, every, little_endian), records).little_endian == little_endian,
    decreases records.len(),
{
    let s0 = start(loaded, every, little_endian);
    let e = every as int;
    if records.len() == 0 {
        assert(loaded + Seq::<KeyPress>::empty() =~= loaded);
        assert(0int / e == 0);
        assert((0int / e) * e == 0) by (nonlinear_arith)
            requires
                0int / e == 0,
        ;
    } else {
        let init = records.drop_last();
        lemma_checkpoint_durability(loaded, every, little_endian, init);
        let s = run(s0, init);
        let k = presses_of(init, little_endian).len() as int;
        lemma_fundamental_div_mod(k, e);
        let q = k / e;
        let r = k % e;
        assert(0 <= r < e);
        assert(e * q == q * e) by (nonlinear_arith);
        if is_press(records.last(), little_endian) {
            let p = press_of_record(records.last(), little_endian);
            assert(loaded + presses_of(init, little_endian).push(p) =~= (loaded + presses_of(
                init,
                little_endian,
            )).push(p));
            if r + 1 >= e {
                assert(k + 1 == (q + 1) * e + 0) by (nonlinear_arith)
                    requires
                        k == e * q + r,
                        r + 1 == e,
                ;
                lemma_fundamental_div_mod_converse(k + 1, e, q + 1, 0);
                assert((q + 1) * e == q * e + e) by (nonlinear_arith);
                assert(q * e >= 0) by (nonlinear_arith)
                    requires
                        q >= 0,
                        e > 0,
                ;
            } else {
                lemma_fundamental_div_mod_converse(k + 1, e, q, r + 1);
                if k + 1 >= e {
                    assert(q >= 1) by (nonlinear_arith)
                        requires
                            k + 1 >= e,
                            k + 1 == e * q + r + 1,
                            r + 1 < e,
                            e > 0,
                    ;
                    assert(q * e >= e) by (nonlinear_arith)
                        requires
                            q >= 1,
                            e > 0,
                    ;
                }
            }
        } else {
            if k >= e {
                assert(q >= 1) by (nonlinear_arith)
                    requires
                        k >= e,
                        k == e * q + r,
                        r < e,
                        e > 0,
                ;
                assert(q * e >= e) by (nonlinear_arith)
                    requires
                        q >= 1,
                        e > 0,
                ;
            }
        }
    }
}

/// A capture session: the log in memory and the checkpoint bookkeeping.
pub struct Capture {
    log: KeyLog,
    saved: usize,
    every: usize,
    little_endian: bool,
}

impl View for Capture {
    type V = CaptureState;

    closed spec fn view(&self) -> CaptureState {
        CaptureState {
            log: self.log@,
            saved: self.saved as nat,
            every: self.every as nat,
            little_endian: self.little_endian,
        }
    }
}

impl Capture {
    /// The bookkeeping is consistent: the last checkpoint covers a prefix of
    /// the log, and fewer than an interval's worth of presses lie beyond it.
    pub open spec fn wf(&self) -> bool {
        &&& self@.every > 0
        &&& self@.saved <= self@.log.len()
        &&& self@.log.len() - self@.saved < self@.every
    }

    /// A session that continues a loaded (or new, empty) log, which is on disk
    /// as it is, checkpointing every `every` new presses.
    pub fn new(log: KeyLog, every: usize, little_endian: bool) -> (r: Capture)
        requires
            every > 0,
        ensures
            r@ == start(log@, every as nat, little_endian),
            r.wf(),
    {
        let saved = log.len();
        Capture { log, saved, every, little_endian }
    }

    /// Takes one raw record; returns whether the whole log must now be written
    /// out as a checkpoint.
    pub fn record(&mut self, input_event: &[u8; 24]) -> (checkpoint: bool)
        requires
            old(self).wf(),
            is_press(input_event@, old(self)@.little_endian) ==> time_fits(
                input_event@,
                old(self)@.little_endian,
            ),
            old(self)@.log.len() < usize::MAX,
        ensures
            final(self)@ == step(old(self)@, input_event@),
            final(self).wf(),
            checkpoint == (final(self)@.saved != old(self)@.saved),
            checkpoint ==> final(self)@.saved == final(self)@.log.len(),
    {
        let little_endian = self.little_endian;
        match crate::event::decode_event(input_event, little_endian) {
            Some(key_press) => {
                self.log.add(key_press);
                if self.log.len() - self.saved >= self.every {
                    self.saved = self.log.len();
                    true
                } else {
                    false
                }
            },
            None => false,
        }
    }

    /// Marks the whole log as written: the final checkpoint on termination.
    pub fn finish(&mut self)
        requires
            old(self).wf(),
        ensures
            final(self)@ == (CaptureState { saved: old(self)@.log.len(), ..old(self)@ }),
            final(self).wf(),
    {
        self.saved = self.log.len();
    }

    /// The log in memory.
    pub fn log(&self) -> (r: &KeyLog)
        ensures
            r@ == self@.log,
    {
        &self.log
    }

    /// How many presses of the log the last checkpoint holds.
    pub fn saved(&self) -> (r: usize)
        ensures
            r == self@.saved,
    {
        self.saved
    }

    /// The number of presses in memory.
    pub fn len(&self) -> (r: usize)
        ensures
            r == self@.log.len(),
    {
        self.log.len()
    }
}

} // verus!
