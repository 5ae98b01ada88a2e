//! The append-only, in-memory log of key presses.
use vstd::prelude::*;
use crate::event::{KeyPress, press_of_record, time_fits};

verus! {

/// The key presses of one log, in the order in which they were recorded.
#[derive(Debug)]
pub struct KeyLog(pub Vec<KeyPress>);

impl View for KeyLog {
    type V = Seq<KeyPress>;

    open spec fn view(&self) -> Seq<KeyPress> {
        self.0@
    }
}

/// Every press of the sequence has a valid time stamp.
pub open spec fn presses_wf(s: Seq<KeyPress>) -> bool {
    forall|i: int| 0 <= i < s.len() ==> (#[trigger] s[i]).wf()
}

impl KeyLog {
    pub open spec fn wf(&self) -> bool {
        presses_wf(self@)
    }

    /// An empty log.
    pub fn new() -> (r: KeyLog)
        ensures
            r@ == Seq::<KeyPress>::empty(),
    {
        KeyLog(Vec::new())
    }

    /// Appends one key press at the end of the log.
    pub fn add(&mut self, key_press: KeyPress)
        ensures
            final(self)@ == old(self)@.push(key_press),
    {
        self.0.push(key_press);
    }

    /// Appends the key press that a raw record, in the given byte order, stands for.
    pub fn log(&mut self, input_event: &[u8; 24], little_endian: bool)
        requires
            time_fits(input_event@, little_endian),
        ensures
            final(self)@ == old(self)@.push(press_of_record(input_event@, little_endian)),
    {
        let key_press = KeyPress::new(input_event, little_endian);
        self.add(key_press);
    }

    /// The number of key presses recorded.
    pub fn len(&self) -> (r: usize)
        ensures
            r == self@.len(),
    {
        self.0.len()
    }
}

} // verus!
