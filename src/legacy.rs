//! The older log schema, whose time stamps are milliseconds since the epoch,
//! and its conversion into the current one.
use vstd::prelude::*;
use crate::bytes::{le_value, read_le, lemma_le_value_bound, lemma_pow256_16};
use crate::crypto::{CodecError, decrypt, open_envelope};
use crate::event::{KeyPress, Timestamp};
use crate::keylog::{KeyLog, presses_wf};

verus! {

/// Width in bytes of one serialized legacy press.
pub const OLD_PRESS_LEN: usize = 18;

/// A key press of the older schema.
#[derive(Clone, Copy, Debug, PartialEq, Eq, Structural)]
pub struct OldKeyPress {
    /// a timestamp: milliseconds since epoch
    pub time: u128,
    /// the key's numeric code
    pub key: u16,
}

/// A key log of the older schema.
#[derive(Debug)]
pub struct OldKeyLog(pub Vec<OldKeyPress>);

impl View for OldKeyLog {
    type V = Seq<OldKeyPress>;

    open spec fn view(&self) -> Seq<OldKeyPress> {
        self.0@
    }
}

/// The `i`-th press of a serialized legacy log: a `u128` of milliseconds and
/// a `u16` key code, least significant byte first.
pub open spec fn old_press_at(b: Seq<u8>, i: int) -> OldKeyPress {
    OldKeyPress {
        time: le_value(b.subrange(8 + 18 * i, 24 + 18 * i)) as u128,
        key: le_value(b.subrange(24 + 18 * i, 26 + 18 * i)) as u16,
    }
}

/// The legacy presses that bytes stand for, if they are a well-formed legacy
/// log: a `u64` length prefix, then exactly that many presses.
pub open spec fn parse_legacy(b: Seq<u8>) -> Option<Seq<OldKeyPress>> {
    if b.len() < 8 {
        None
    } else {
        let n = le_value(b.subrange(0, 8));
        if b.len() != 8 + 18 * n {
            None
        } else {
            Some(Seq::new(n, |i: int| old_press_at(b, i)))
        }
    }
}

/// A legacy press in the current schema: epoch + its milliseconds.
pub open spec fn press_of_old(p: OldKeyPress) -> KeyPress {
    KeyPress {
        time: Timestamp { secs: (p.time / 1000) as u64, nanos: ((p.time % 1000) * 1_000_000) as u32 },
        key: p.key,
    }
}

/// The legacy press's time stamp fits in a `u64` of milliseconds.
pub open spec fn old_time_fits(p: OldKeyPress) -> bool {
    p.time <= u64::MAX
}

/// What decoding a legacy envelope under a password gives.
pub open spec fn decode_legacy_spec(env: Seq<u8>, password: Seq<u8>) -> Result<Seq<OldKeyPress>, CodecError> {
    match open_envelope(env, password) {
        Err(e) => Err(e),
        Ok(s) => match parse_legacy(s) {
            None => Err(CodecError::Format),
            Some(log) => Ok(log),
        },
    }
}

impl OldKeyLog {
    /// The legacy log that bytes stand for, or `None` if they are no well-formed legacy log.
    pub fn from_bytes(b: &[u8]) -> (r: Option<OldKeyLog>)
        ensures
            match r {
                Some(log) => parse_legacy(b@) == Some(log@),
                None => parse_legacy(b@) is None,
            },
    {
        let len = b.len();
        if len < 8 {
            return None;
        }
        let n = read_le(b, 0, 8);
        proof {
            lemma_pow256_16();
            lemma_le_value_bound(b@.subrange(0, 8));
        }
        let rest = len - 8;
        if rest % OLD_PRESS_LEN != 0 || (rest / OLD_PRESS_LEN) as u128 != n {
            return None;
        }
        let n = n as usize;
        let mut v: Vec<OldKeyPress> = Vec::new();
        let mut i: usize = 0;
        while i < n
            invariant
                len == b@.len(),
                b@.len() == 8 + 18 * n,
                i <= n,
                v@ =~= Seq::new(i as nat, |k: int| old_press_at(b@, k)),
            decreases n - i,
        {
            let off = 8 + OLD_PRESS_LEN * i;
            let time = read_le(b, off, 16);
            let key = read_le(b, off + 16, 2);
            proof {
                lemma_pow256_16();
                lemma_le_value_bound(b@.subrange(off + 16, off + 18));
            }
            v.push(OldKeyPress { time, key: key as u16 });
            i = i + 1;
        }
        Some(OldKeyLog(v))
    }

    /// The legacy log that an envelope holds under a password. Legacy payloads
    /// are stored uncompressed.
    pub fn decode(bytes: &[u8], password: &[u8]) -> (r: Result<OldKeyLog, CodecError>)
        ensures
            match r {
                Ok(log) => decode_legacy_spec(bytes@, password@) == Ok::<Seq<OldKeyPress>, CodecError>(log@),
                Err(e) => decode_legacy_spec(bytes@, password@) == Err::<Seq<OldKeyPress>, CodecError>(e),
            },
            bytes@.len() < 28 ==> r matches Err(CodecError::Format),
    {
        let serialized = match decrypt(bytes, password) {
            Ok(s) => s,
            Err(e) => return Err(e),
        };
        match OldKeyLog::from_bytes(serialized.as_slice()) {
            Some(log) => Ok(log),
            None => Err(CodecError::Format),
        }
    }
}

/// Converts a legacy log into the current schema, press by press and in the
/// same order; fails with `Format` if a time stamp does not fit in a `u64` of
/// milliseconds.
pub fn convert(old: &OldKeyLog) -> (r: Result<KeyLog, CodecError>)
    ensures
        r is Ok <==> (forall|i: int| 0 <= i < old@.len() ==> old_time_fits(#[trigger] old@[i])),
        match r {
            Ok(log) => log@ == old@.map_values(|p: OldKeyPress| press_of_old(p)) && presses_wf(log@)
                && forall|i: int|
                0 <= i < old@.len() ==> (#[trigger] log@[i]).time.total_nanos() == old@[i].time * 1_000_000,
            Err(e) => e == CodecError::Format,
        },
{
    let mut new_log = KeyLog::new();
    let n = old.0.len();
    let mut i: usize = 0;
    while i < n
        invariant
            n == old@.len(),
            i <= n,
            new_log@ =~= old@.subrange(0, i as int).map_values(|p: OldKeyPress| press_of_old(p)),
            forall|k: int| 0 <= k < i ==> old_time_fits(#[trigger] old@[k]),
            presses_wf(new_log@),
            forall|k: int|
                0 <= k < i ==> (#[trigger] new_log@[k]).time.total_nanos() == old@[k].time * 1_000_000,
        decreases n - i,
    {
        let old_key_press = old.0[i];
        if old_key_press.time > u64::MAX as u128 {
            return Err(CodecError::Format);
        }
        let ms = old_key_press.time as u64;
        let key_press = KeyPress {
            time: Timestamp { secs: ms / 1000, nanos: ((ms % 1000) * 1_000_000) as u32 },
            key: old_key_press.key,
        };
        assert(key_press == press_of_old(old_key_press));
        new_log.add(key_press);
        i = i + 1;
    }
    assert(old@.subrange(0, n as int) =~= old@);
    Ok(new_log)
}

} // verus!
