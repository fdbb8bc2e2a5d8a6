//! Opaque byte payloads and half-open byte ranges.

use vstd::prelude::*;

verus! {

/// An immutable, opaque byte payload. A tile's bytes travel through the
/// pipeline as a `Blob`; its view is the byte sequence it holds.
#[derive(Debug)]
pub struct Blob {
    data: Vec<u8>,
}

impl View for Blob {
    type V = Seq<u8>;

    closed spec fn view(&self) -> Seq<u8> {
        self.data@
    }
}

impl Blob {
    /// The empty payload.
    pub fn empty() -> (r: Blob)
        ensures
            r@ == Seq::<u8>::empty(),
    {
        Blob { data: Vec::new() }
    }

    /// Wraps a byte vector without copying it.
    pub fn from_vec(data: Vec<u8>) -> (r: Blob)
        ensures
            r@ == data@,
    {
        Blob { data }
    }

    /// The payload's bytes.
    pub fn as_slice(&self) -> (r: &[u8])
        ensures
            r@ == self@,
    {
        self.data.as_slice()
    }

    /// Consumes the payload, handing back its bytes.
    pub fn into_vec(self) -> (r: Vec<u8>)
        ensures
            r@ == self@,
    {
        self.data
    }

    /// Number of bytes held.
    pub fn len(&self) -> (r: usize)
        ensures
            r == self@.len(),
    {
        self.data.len()
    }

    /// Whether the payload holds no bytes.
    pub fn is_empty(&self) -> (r: bool)
        ensures
            r == (self@.len() == 0),
    {
        self.data.len() == 0
    }
}

impl Clone for Blob {
    fn clone(&self) -> (r: Blob)
        ensures
            r@ == self@,
    {
        let mut data: Vec<u8> = Vec::new();
        let mut i: usize = 0;
        while i < self.data.len()
            invariant
                i <= self.data.len(),
                data@ == self.data@.subrange(0, i as int),
            decreases self.data.len() - i,
        {
            data.push(self.data[i]);
            i = i + 1;
        }
        proof {
            assert(data@ == self.data@.subrange(0, self.data@.len() as int));
            assert(self.data@.subrange(0, self.data@.len() as int) =~= self.data@);
        }
        Blob { data }
    }
}

/// A half-open range of bytes inside a container file.
#[derive(Clone, Copy, Debug, PartialEq, Eq, Structural)]
pub struct ByteRange {
    pub offset: u64,
    pub length: u64,
}

impl ByteRange {
    pub fn new(offset: u64, length: u64) -> (r: ByteRange)
        ensures
            r.offset == offset,
            r.length == length,
    {
        ByteRange { offset, length }
    }
}

} // verus!
