//! The decoder's input buffer: bytes that have arrived and a cursor behind
//! the bytes that are done with.

use vstd::prelude::*;

verus! {

/// A growable byte buffer with a read cursor.
///
/// Its view is the bytes that have not been consumed. Bytes before the
/// cursor are never read again; bytes behind it stay until they are
/// consumed, however many chunks arrive meanwhile.
pub struct DecodeBuffer {
    bytes: Vec<u8>,
    cursor: usize,
}

impl View for DecodeBuffer {
    type V = Seq<u8>;

    closed spec fn view(&self) -> Seq<u8> {
        self.bytes@.skip(self.cursor as int)
    }
}

impl DecodeBuffer {
    #[verifier::type_invariant]
    spec fn wf(self) -> bool {
        self.cursor <= self.bytes@.len()
    }

    /// An empty buffer.
    pub fn new() -> (buffer: Self)
        ensures
            buffer@ == Seq::<u8>::empty(),
    {
        DecodeBuffer { bytes: Vec::new(), cursor: 0 }
    }

    /// How many bytes wait to be consumed.
    pub fn len(&self) -> (n: usize)
        ensures
            n == self@.len(),
    {
        proof {
            use_type_invariant(self);
        }
        self.bytes.len() - self.cursor
    }

    /// Whether no byte waits to be consumed.
    pub fn is_empty(&self) -> (empty: bool)
        ensures
            empty == (self@.len() == 0),
    {
        self.len() == 0
    }

    /// The bytes that wait to be consumed.
    pub fn as_slice(&self) -> (pending: &[u8])
        ensures
            pending@ == self@,
    {
        proof {
            use_type_invariant(self);
        }
        let pending = &self.bytes.as_slice()[self.cursor..self.bytes.len()];
        pending
    }

    /// Appends a chunk behind the bytes that wait. Where bytes have been
    /// consumed, their space is given back first.
    pub fn extend(&mut self, chunk: &[u8])
        ensures
            final(self)@ == old(self)@ + chunk@,
    {
        proof {
            use_type_invariant(&*self);
        }
        let mut bytes: Vec<u8> = Vec::new();
        if self.cursor > 0 {
            bytes.extend_from_slice(self.as_slice());
        } else {
            core::mem::swap(&mut bytes, &mut self.bytes);
        }
        bytes.extend_from_slice(chunk);
        *self = DecodeBuffer { bytes, cursor: 0 };
    }

    /// Moves the cursor over the next `n` bytes.
    pub fn consume(&mut self, n: usize)
        requires
            n <= old(self)@.len(),
        ensures
            final(self)@ == old(self)@.skip(n as int),
    {
        proof {
            use_type_invariant(&*self);
        }
        let total = self.bytes.len();
        assert(self.cursor + n <= total);
        self.cursor = self.cursor + n;
    }
}

} // verus!
