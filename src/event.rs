//! Raw input-event records and the key presses decoded from them.
use vstd::prelude::*;
use crate::bytes::{be_value, le_value, read_be, read_le, lemma_le_value_bound, lemma_be_value_bound, lemma_pow256_16};

verus! {

/// Width in bytes of one raw input-event record.
pub const RECORD_LEN: usize = 24;

/// Nanoseconds in one second.
pub const NANOS_PER_SEC: u32 = 1_000_000_000;

/// An instant, as the time elapsed since the Unix epoch.
#[derive(Clone, Copy, Debug, PartialEq, Eq, Structural)]
pub struct Timestamp {
    /// whole seconds since the epoch
    pub secs: u64,
    /// the fraction of a second, in nanoseconds (below one second)
    pub nanos: u32,
}

impl Timestamp {
    /// The fraction of a second is below one second.
    pub open spec fn wf(self) -> bool {
        self.nanos < NANOS_PER_SEC
    }

    /// Nanoseconds since the epoch.
    pub open spec fn total_nanos(self) -> int {
        self.secs * 1_000_000_000 + self.nanos
    }
}

/// Represents the pressing of one key at some time.
///
/// Only the down-stroke of a key is recorded, not holding or lifting it.
#[derive(Clone, Copy, Debug, PartialEq, Eq, Structural)]
pub struct KeyPress {
    /// when the key went down
    pub time: Timestamp,
    /// the key's numeric code
    pub key: u16,
}

impl KeyPress {
    pub open spec fn wf(self) -> bool {
        self.time.wf()
    }
}

/// The unsigned number in `s[off .. off + width]`, in the given byte order.
pub open spec fn field(s: Seq<u8>, off: int, width: int, little_endian: bool) -> nat {
    if little_endian {
        le_value(s.subrange(off, off + width))
    } else {
        be_value(s.subrange(off, off + width))
    }
}

/// Seconds of a record's time stamp: bytes `[0, 8)`.
pub open spec fn record_seconds(r: Seq<u8>, little_endian: bool) -> nat {
    field(r, 0, 8, little_endian)
}

/// Microseconds of a record's time stamp: bytes `[8, 16)`.
pub open spec fn record_micros(r: Seq<u8>, little_endian: bool) -> nat {
    field(r, 8, 8, little_endian)
}

/// Key code of a record: bytes `[18, 20)`.
pub open spec fn record_key(r: Seq<u8>, little_endian: bool) -> nat {
    field(r, 18, 2, little_endian)
}

/// Event value of a record: byte 20 (0 release, 1 press, 2 repeat).
pub open spec fn record_value(r: Seq<u8>) -> u8 {
    r[20]
}

/// A record is significant when it is the down-stroke of a real key.
pub open spec fn is_press(r: Seq<u8>, little_endian: bool) -> bool {
    record_key(r, little_endian) != 0 && record_value(r) == 1
}

/// The record's seconds, plus the whole seconds among its microseconds, fit in a `u64`.
pub open spec fn time_fits(r: Seq<u8>, little_endian: bool) -> bool {
    record_seconds(r, little_endian) + record_micros(r, little_endian) / 1_000_000
        <= u64::MAX
}

/// The key press that a record stands for: epoch + seconds + microseconds.
pub open spec fn press_of_record(r: Seq<u8>, little_endian: bool) -> KeyPress {
    let micros = record_micros(r, little_endian);
    KeyPress {
        time: Timestamp {
            secs: (record_seconds(r, little_endian) + micros / 1_000_000) as u64,
            nanos: ((micros % 1_000_000) * 1000) as u32,
        },
        key: record_key(r, little_endian) as u16,
    }
}

/// Relies on u16::from_ne_bytes, which reads two bytes in the host's byte
/// order: that order is either little-endian or big-endian.
#[verifier::external_body]
fn u16_from_native(b: [u8; 2]) -> (r: u16)
    ensures
        r == b[0] + 256 * b[1] || r == b[1] + 256 * b[0],
{
    u16::from_ne_bytes(b)
}

/// Whether this machine stores integers least significant byte first, the
/// byte order in which its input devices write records.
pub fn host_little_endian() -> (r: bool) {
    u16_from_native([1u8, 0u8]) == 1
}

fn read_field(b: &[u8; 24], off: usize, width: usize, little_endian: bool) -> (r: u128)
    requires
        width <= 16,
        off + width <= 24,
    ensures
        r as nat == field(b@, off as int, width as int, little_endian),
{
    let s = vstd::array::array_as_slice(b);
    if little_endian {
        read_le(s, off, width)
    } else {
        read_be(s, off, width)
    }
}

/// The bytes `[off, off + width)` of a record denote a number below `256^width`.
proof fn lemma_field_bound(r: Seq<u8>, off: int, width: int, little_endian: bool)
    requires
        0 <= off,
        0 <= width,
        off + width <= r.len(),
    ensures
        width == 8 ==> field(r, off, width, little_endian) <= u64::MAX,
        width == 2 ==> field(r, off, width, little_endian) <= u16::MAX,
{
    lemma_pow256_16();
    lemma_le_value_bound(r.subrange(off, off + width));
    lemma_be_value_bound(r.subrange(off, off + width));
}

/// Whether the record's time stamp can be held by a [`Timestamp`].
pub fn record_time_fits(input_event: &[u8; 24], little_endian: bool) -> (r: bool)
    ensures
        r == time_fits(input_event@, little_endian),
{
    proof {
        lemma_field_bound(input_event@, 0, 8, little_endian);
        lemma_field_bound(input_event@, 8, 8, little_endian);
    }
    let secs = read_field(input_event, 0, 8, little_endian) as u64;
    let micros = read_field(input_event, 8, 8, little_endian) as u64;
    secs <= u64::MAX - micros / 1_000_000
}

impl KeyPress {
    /// Decodes a raw record, written in the given byte order, into a key press.
    pub fn new(input_event: &[u8; 24], little_endian: bool) -> (r: KeyPress)
        requires
            time_fits(input_event@, little_endian),
        ensures
            r == press_of_record(input_event@, little_endian),
            r.wf(),
            r.time.total_nanos() == record_seconds(input_event@, little_endian) * 1_000_000_000
                + record_micros(input_event@, little_endian) * 1000,
            r.key == record_key(input_event@, little_endian),
    {
        proof {
            lemma_field_bound(input_event@, 0, 8, little_endian);
            lemma_field_bound(input_event@, 8, 8, little_endian);
            lemma_field_bound(input_event@, 18, 2, little_endian);
        }
        let key = read_field(input_event, 18, 2, little_endian) as u16;
        let tv_sec = read_field(input_event, 0, 8, little_endian) as u64;
        let tv_usec = read_field(input_event, 8, 8, little_endian) as u64;
        let secs = tv_sec + tv_usec / 1_000_000;
        let nanos = ((tv_usec % 1_000_000) * 1000) as u32;
        KeyPress { time: Timestamp { secs, nanos }, key }
    }
}

/// Whether a raw record is the down-stroke of a real key.
pub fn is_key_press(input_event: &[u8; 24], little_endian: bool) -> (r: bool)
    ensures
        r == is_press(input_event@, little_endian),
{
    proof {
        lemma_field_bound(input_event@, 18, 2, little_endian);
    }
    let key = read_field(input_event, 18, 2, little_endian);
    key != 0 && input_event[20] == 1
}

/// Decodes one raw record: a key press for the down-stroke of a real key,
/// nothing for releases, repeats and records without a key code.
pub fn decode_event(input_event: &[u8; 24], little_endian: bool) -> (r: Option<KeyPress>)
    requires
        is_press(input_event@, little_endian) ==> time_fits(input_event@, little_endian),
    ensures
        r == (if is_press(input_event@, little_endian) {
            Some(press_of_record(input_event@, little_endian))
        } else {
            None::<KeyPress>
        }),
        record_value(input_event@) != 1 ==> r is None,
        record_key(input_event@, little_endian) == 0 ==> r is None,
{
    if is_key_press(input_event, little_endian) {
        Some(KeyPress::new(input_event, little_endian))
    } else {
        None
    }
}

} // verus!
