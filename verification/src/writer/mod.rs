//! Writing TFRecord streams.
//!
//! A [RecordWriter], built by [RecordWriterInit], frames each record it is
//! sent and appends the frame to its `Vec<u8>` sink.

use crate::error::Error;
use crate::io::sync::try_write_record;
use crate::io::{encode_records, frame};
use vstd::prelude::*;

verus! {

/// The writer initializer.
#[derive(Debug, Clone, PartialEq, Eq, Hash, Structural)]
pub struct RecordWriterInit;

impl RecordWriterInit {
    /// Construct a [RecordWriter] that appends to `writer`.
    pub fn from_writer(writer: Vec<u8>) -> (r: Result<RecordWriter, Error>)
        ensures
            r is Ok,
            r->Ok_0.written() == writer@,
    {
        Ok(RecordWriter { writer })
    }
}

/// The record writer.
#[derive(Debug, Clone, PartialEq, Eq, Hash)]
pub struct RecordWriter {
    writer: Vec<u8>,
}

/// Alias to [RecordWriter], whose input records are raw bytes.
pub type BytesWriter = RecordWriter;

impl RecordWriter {
    /// The bytes in the sink.
    pub closed spec fn written(&self) -> Seq<u8> {
        self.writer@
    }

    /// Construct a [RecordWriter] that appends to `writer`.
    pub fn from_writer(writer: Vec<u8>) -> (r: Result<Self, Error>)
        ensures
            r is Ok,
            r->Ok_0.written() == writer@,
    {
        Ok(Self { writer })
    }

    /// Write a record.
    pub fn send(&mut self, record: Vec<u8>) -> (r: Result<(), Error>)
        ensures
            r is Ok,
            final(self).written() == old(self).written() + frame(record@),
    {
        try_write_record(&mut self.writer, record)?;
        Ok(())
    }

    /// Flush the output; the `Vec<u8>` sink holds every byte already.
    pub fn flush(&mut self) -> (r: Result<(), Error>)
        ensures
            r is Ok,
            final(self).written() == old(self).written(),
    {
        Ok(())
    }

    /// Take the bytes written so far.
    pub fn into_inner(self) -> (r: Vec<u8>)
        ensures
            r@ == self.written(),
    {
        self.writer
    }
}

/// Sending records one after another to an empty writer leaves their
/// frames in the sink, in order: sending one more appends its frame.
pub proof fn law_send_appends(records: Seq<Seq<u8>>, record: Seq<u8>)
    ensures
        encode_records(records.push(record)) == encode_records(records) + frame(record),
{
    assert(records.push(record).drop_last() =~= records);
}

} // verus!
