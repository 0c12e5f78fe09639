//! The buffer of decoded keyboard input.

use std::collections::VecDeque;
use vstd::prelude::*;

verus! {

/// Characters typed and not yet consumed, oldest first.
pub struct KeyBuffer {
    keys: VecDeque<char>,
}

impl View for KeyBuffer {
    type V = Seq<char>;

    closed spec fn view(&self) -> Seq<char> {
        self.keys@
    }
}

impl KeyBuffer {
    /// An empty buffer.
    pub fn new() -> (buffer: KeyBuffer)
        ensures
            buffer@ == Seq::<char>::empty(),
    {
        KeyBuffer { keys: VecDeque::new() }
    }
}

/// Adds a character at the end of the buffer.
pub fn push_key(buffer: &mut KeyBuffer, c: char)
    ensures
        final(buffer)@ == old(buffer)@.push(c),
{
    buffer.keys.push_back(c);
}

/// Takes the oldest character out of the buffer, if there is one.
pub fn pop_key(buffer: &mut KeyBuffer) -> (key: Option<char>)
    ensures
        key == if old(buffer)@.len() > 0 {
            Some(old(buffer)@[0])
        } else {
            None
        },
        final(buffer)@ == if old(buffer)@.len() > 0 {
            old(buffer)@.drop_first()
        } else {
            old(buffer)@
        },
{
    buffer.keys.pop_front()
}

} // verus!
