//! Contracts for raw data access, and an in-memory implementation.

use vstd::prelude::*;

use crate::types::blob::Blob;
use crate::types::blob::ByteRange;

verus! {

/// A source of raw bytes addressed by ranges.
pub trait DataReaderTrait {
    /// The bytes the reader holds.
    spec fn spec_data(&self) -> Seq<u8>;

    /// The reader's name, such as the file name it was opened from.
    fn get_name(&self) -> &str;

    /// Reads one range; errs exactly when the range leaves the data.
    fn read_range(&mut self, range: &ByteRange) -> (r: Result<Blob, ByteRange>)
        ensures
            final(self).spec_data() == old(self).spec_data(),
            range.offset + range.length <= old(self).spec_data().len() ==> (r matches Ok(b) && b@
                == old(self).spec_data().subrange(
                range.offset as int,
                range.offset + range.length,
            )),
            range.offset + range.length > old(self).spec_data().len() ==> r is Err,
    ;
}

/// A sink for raw bytes that reports where each payload landed.
pub trait DataWriterTrait {
    /// The bytes written so far.
    spec fn spec_written(&self) -> Seq<u8>;

    /// Appends a payload and hands back the range it occupies.
    fn append(&mut self, blob: &Blob) -> (r: Result<ByteRange, ()>)
        ensures
            r matches Ok(rg) ==> final(self).spec_written() == old(self).spec_written() + blob@
                && rg.offset == old(self).spec_written().len() && rg.length == blob@.len(),
            r is Err ==> final(self).spec_written() == old(self).spec_written(),
    ;

    /// The write position: how many bytes were written.
    fn get_position(&mut self) -> (r: Result<u64, ()>)
        ensures
            final(self).spec_written() == old(self).spec_written(),
            r matches Ok(p) ==> p == old(self).spec_written().len(),
    ;
}

/// A reader over bytes held in memory.
#[derive(Debug)]
pub struct MemDataReader {
    name: String,
    data: Vec<u8>,
}

impl MemDataReader {
    pub fn new(name: String, data: Vec<u8>) -> (r: MemDataReader)
        ensures
            r.spec_data() == data@,
    {
        MemDataReader { name, data }
    }
}

impl DataReaderTrait for MemDataReader {
    closed spec fn spec_data(&self) -> Seq<u8> {
        self.data@
    }

    fn get_name(&self) -> &str {
        self.name.as_str()
    }

    fn read_range(&mut self, range: &ByteRange) -> (r: Result<Blob, ByteRange>) {
        if range.length > (self.data.len() as u64) || range.offset > (self.data.len() as u64)
            - range.length {
            return Err(*range);
        }
        let start = range.offset as usize;
        let end = start + (range.length as usize);
        let mut out: Vec<u8> = Vec::new();
        let mut i = start;
        while i < end
            invariant
                start <= i <= end,
                end <= self.data@.len(),
                out@ == self.data@.subrange(start as int, i as int),
            decreases end - i,
        {
            proof {
                assert(self.data@.subrange(start as int, i as int + 1) =~= self.data@.subrange(
                    start as int,
                    i as int,
                ).push(self.data@[i as int]));
            }
            out.push(self.data[i]);
            i = i + 1;
        }
        Ok(Blob::from_vec(out))
    }
}

/// A writer collecting bytes in memory.
#[derive(Debug)]
pub struct MemDataWriter {
    data: Vec<u8>,
}

impl MemDataWriter {
    pub fn new() -> (r: MemDataWriter)
        ensures
            r.spec_written() == Seq::<u8>::empty(),
    {
        MemDataWriter { data: Vec::new() }
    }

    /// Consumes the writer, handing back everything written.
    pub fn into_data(self) -> (r: Vec<u8>)
        ensures
            r@ == self.spec_written(),
    {
        self.data
    }
}

impl DataWriterTrait for MemDataWriter {
    closed spec fn spec_written(&self) -> Seq<u8> {
        self.data@
    }

    fn append(&mut self, blob: &Blob) -> (r: Result<ByteRange, ()>) {
        if self.data.len() > usize::MAX - blob.len() {
            return Err(());
        }
        if (self.data.len() as u64) > 0xffff_ffff_ffff_ffffu64 - (blob.len() as u64) {
            return Err(());
        }
        let offset = self.data.len() as u64;
        let length = blob.len() as u64;
        let ghost pre = self.data@;
        let bytes = blob.as_slice();
        let mut i: usize = 0;
        while i < bytes.len()
            invariant
                i <= bytes@.len(),
                bytes@ == blob@,
                self.data@ == pre + bytes@.subrange(0, i as int),
            decreases bytes@.len() - i,
        {
            proof {
                assert(bytes@.subrange(0, i as int + 1) =~= bytes@.subrange(0, i as int).push(
                    bytes@[i as int],
                ));
                assert(pre + bytes@.subrange(0, i as int).push(bytes@[i as int]) =~= (pre
                    + bytes@.subrange(0, i as int)).push(bytes@[i as int]));
            }
            self.data.push(bytes[i]);
            i = i + 1;
        }
        proof {
            assert(bytes@.subrange(0, bytes@.len() as int) =~= bytes@);
        }
        Ok(ByteRange { offset, length })
    }

    fn get_position(&mut self) -> (r: Result<u64, ()>) {
        Ok(self.data.len() as u64)
    }
}

} // verus!
