//! The byte form of a key log: its length as a `u64`, then for each press its
//! seconds (`u64`), nanoseconds (`u32`) and key code (`u16`), all least
//! significant byte first.
use vstd::prelude::*;
use crate::bytes::{le_bytes, le_value, pow256, push_le, read_le, lemma_le_bytes_len, lemma_le_round_trip, lemma_le_value_bound, lemma_pow256_16};
use crate::event::{KeyPress, Timestamp, NANOS_PER_SEC};
use crate::keylog::{KeyLog, presses_wf};

verus! {

/// Width in bytes of the length prefix.
pub const HEADER_LEN: usize = 8;

/// Width in bytes of one serialized key press.
pub const PRESS_LEN: usize = 14;

/// The concatenation of a sequence of byte strings.
pub open spec fn flat(chunks: Seq<Seq<u8>>) -> Seq<u8>
    decreases chunks.len(),
{
    if chunks.len() == 0 {
        Seq::empty()
    } else {
        flat(chunks.drop_last()) + chunks.last()
    }
}

/// The fourteen bytes of one key press.
pub open spec fn press_bytes(p: KeyPress) -> Seq<u8> {
    le_bytes(p.time.secs as nat, 8) + le_bytes(p.time.nanos as nat, 4) + le_bytes(p.key as nat, 2)
}

/// The byte form of a sequence of key presses.
pub open spec fn log_bytes(log: Seq<KeyPress>) -> Seq<u8> {
    le_bytes(log.len(), 8) + flat(log.map_values(|p: KeyPress| press_bytes(p)))
}

/// The key press that fourteen bytes stand for.
pub open spec fn press_of_chunk(c: Seq<u8>) -> KeyPress {
    KeyPress {
        time: Timestamp {
            secs: le_value(c.subrange(0, 8)) as u64,
            nanos: le_value(c.subrange(8, 12)) as u32,
        },
        key: le_value(c.subrange(12, 14)) as u16,
    }
}

/// The `i`-th press of a serialized log.
pub open spec fn press_at(b: Seq<u8>, i: int) -> KeyPress {
    press_of_chunk(b.subrange(8 + 14 * i, 22 + 14 * i))
}

/// The key presses that bytes stand for, if they are a well-formed log:
/// a length prefix, exactly that many presses and nothing after them, each
/// with a fraction of a second below one second.
pub open spec fn parse_log(b: Seq<u8>) -> Option<Seq<KeyPress>> {
    if b.len() < 8 {
        None
    } else {
        let n = le_value(b.subrange(0, 8));
        if b.len() != 8 + 14 * n {
            None
        } else {
            let presses = Seq::new(n, |i: int| press_at(b, i));
            if presses_wf(presses) {
                Some(presses)
            } else {
                None
            }
        }
    }
}

/// Each chunk of width `w` can be found back in the concatenation.
pub proof fn lemma_flat_chunks(chunks: Seq<Seq<u8>>, w: int)
    requires
        w >= 0,
        forall|i: int| 0 <= i < chunks.len() ==> (#[trigger] chunks[i]).len() == w,
    ensures
        flat(chunks).len() == w * chunks.len(),
        forall|i: int|
            0 <= i < chunks.len() ==> flat(chunks).subrange(w * i, w * i + w) == #[trigger] chunks[i],
    decreases chunks.len(),
{
    if chunks.len() > 0 {
        let init = chunks.drop_last();
        lemma_flat_chunks(init, w);
        let n = chunks.len() - 1;
        assert(chunks[n as int].len() == w);
        assert(w * (n + 1) == w * n + w) by (nonlinear_arith);
        assert(w * chunks.len() == w * n + w);
        assert forall|i: int| 0 <= i < chunks.len() implies flat(chunks).subrange(w * i, w * i + w)
            == #[trigger] chunks[i] by {
            if i < n {
                assert(w * i + w <= w * n) by (nonlinear_arith)
                    requires
                        i < n,
                        w >= 0,
                ;
                assert(init[i] == chunks[i]);
                assert(flat(chunks).subrange(w * i, w * i + w) =~= flat(init).subrange(w * i, w * i + w));
            } else {
                assert(flat(chunks).subrange(w * i, w * i + w) =~= chunks.last());
            }
        }
    } else {
        assert(w * chunks.len() == 0) by (nonlinear_arith)
            requires
                chunks.len() == 0,
        ;
    }
}

/// A press read back from its own bytes is the same press.
pub proof fn lemma_press_round_trip(p: KeyPress)
    ensures
        press_bytes(p).len() == 14,
        press_of_chunk(press_bytes(p)) == p,
{
    lemma_pow256_16();
    let a = le_bytes(p.time.secs as nat, 8);
    let b = le_bytes(p.time.nanos as nat, 4);
    let c = le_bytes(p.key as nat, 2);
    lemma_le_bytes_len(p.time.secs as nat, 8);
    lemma_le_bytes_len(p.time.nanos as nat, 4);
    lemma_le_bytes_len(p.key as nat, 2);
    lemma_le_round_trip(p.time.secs as nat, 8);
    lemma_le_round_trip(p.time.nanos as nat, 4);
    lemma_le_round_trip(p.key as nat, 2);
    let s = press_bytes(p);
    assert(s.subrange(0, 8) =~= a);
    assert(s.subrange(8, 12) =~= b);
    assert(s.subrange(12, 14) =~= c);
}

/// Parsing the byte form of a log gives back the log.
pub proof fn lemma_log_round_trip(log: Seq<KeyPress>)
    requires
        presses_wf(log),
        log.len() <= u64::MAX,
    ensures
        parse_log(log_bytes(log)) == Some(log),
{
    lemma_pow256_16();
    let chunks = log.map_values(|p: KeyPress| press_bytes(p));
    assert forall|i: int| 0 <= i < chunks.len() implies (#[trigger] chunks[i]).len() == 14 by {
        lemma_press_round_trip(log[i]);
    }
    lemma_flat_chunks(chunks, 14);
    lemma_le_bytes_len(log.len(), 8);
    lemma_le_round_trip(log.len(), 8);
    let b = log_bytes(log);
    assert(b.subrange(0, 8) =~= le_bytes(log.len(), 8));
    let presses = Seq::new(log.len(), |i: int| press_at(b, i));
    assert forall|i: int| 0 <= i < log.len() implies #[trigger] presses[i] == log[i] by {
        assert(b.subrange(8 + 14 * i, 22 + 14 * i) =~= flat(chunks).subrange(14 * i, 14 * i + 14));
        assert(chunks[i] == press_bytes(log[i]));
        lemma_press_round_trip(log[i]);
    }
    assert(presses =~= log);
}

impl KeyLog {
    /// The byte form of the log.
    pub fn to_bytes(&self) -> (r: Vec<u8>)
        ensures
            r@ == log_bytes(self@),
    {
        let mut out: Vec<u8> = Vec::new();
        let n = self.0.len();
        push_le(&mut out, n as u128, 8);
        assert(out@ =~= le_bytes(n as nat, 8) + flat(
            self@.subrange(0, 0).map_values(|p: KeyPress| press_bytes(p)),
        ));
        let mut i: usize = 0;
        while i < n
            invariant
                n == self@.len(),
                i <= n,
                out@ == le_bytes(n as nat, 8) + flat(
                    self@.subrange(0, i as int).map_values(|p: KeyPress| press_bytes(p)),
                ),
            decreases n - i,
        {
            let p = self.0[i];
            let ghost before = out@;
            push_le(&mut out, p.time.secs as u128, 8);
            push_le(&mut out, p.time.nanos as u128, 4);
            push_le(&mut out, p.key as u128, 2);
            proof {
                let m = self@.subrange(0, i + 1).map_values(|p: KeyPress| press_bytes(p));
                assert(m.drop_last() =~= self@.subrange(0, i as int).map_values(
                    |p: KeyPress| press_bytes(p),
                ));
                assert(m.last() == press_bytes(p));
                assert(out@ =~= le_bytes(n as nat, 8) + flat(m));
            }
            i = i + 1;
        }
        assert(self@.subrange(0, n as int) =~= self@);
        out
    }

    /// The log that bytes stand for, or `None` if they are no well-formed log.
    pub fn from_bytes(b: &[u8]) -> (r: Option<KeyLog>)
        ensures
            match r {
                Some(log) => parse_log(b@) == Some(log@),
                None => parse_log(b@) is None,
            },
    {
        let len = b.len();
        if len < HEADER_LEN {
            return None;
        }
        let n = read_le(b, 0, 8);
        proof {
            lemma_pow256_16();
            lemma_le_value_bound(b@.subrange(0, 8));
        }
        let rest = len - HEADER_LEN;
        if rest % PRESS_LEN != 0 || (rest / PRESS_LEN) as u128 != n {
            return None;
        }
        let n = n as usize;
        let mut v: Vec<KeyPress> = Vec::new();
        let mut i: usize = 0;
        while i < n
            invariant
                len == b@.len(),
                b@.len() == 8 + 14 * n,
                n == le_value(b@.subrange(0, 8)),
                i <= n,
                v@ =~= Seq::new(i as nat, |k: int| press_at(b@, k)),
                presses_wf(v@),
            decreases n - i,
        {
            let off = HEADER_LEN + PRESS_LEN * i;
            let secs = read_le(b, off, 8);
            let nanos = read_le(b, off + 8, 4);
            let key = read_le(b, off + 12, 2);
            proof {
                let c = b@.subrange(off as int, off + 14);
                assert(c.subrange(0, 8) =~= b@.subrange(off as int, off + 8));
                assert(c.subrange(8, 12) =~= b@.subrange(off + 8, off + 12));
                assert(c.subrange(12, 14) =~= b@.subrange(off + 12, off + 14));
                lemma_pow256_16();
                lemma_le_value_bound(b@.subrange(off as int, off + 8));
                lemma_le_value_bound(b@.subrange(off + 8, off + 12));
                lemma_le_value_bound(b@.subrange(off + 12, off + 14));
            }
            if nanos >= NANOS_PER_SEC as u128 {
                proof {
                    let presses = Seq::new(n as nat, |k: int| press_at(b@, k));
                    assert(presses[i as int].time.nanos == nanos);
                    assert(!presses[i as int].wf());
                }
                return None;
            }
            let p = KeyPress {
                time: Timestamp { secs: secs as u64, nanos: nanos as u32 },
                key: key as u16,
            };
            assert(p == press_at(b@, i as int));
            v.push(p);
            i = i + 1;
        }
        proof {
            let presses = Seq::new(n as nat, |k: int| press_at(b@, k));
            assert(presses =~= v@);
        }
        Some(KeyLog(v))
    }
}

} // verus!
