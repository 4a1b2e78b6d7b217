//! Low level functions that frame and unframe TFRecord records.
//!
//! The reading functions take a [ByteReader], a cursor over the bytes of a
//! TFRecord stream; the writing function appends to a `Vec<u8>`. The
//! functions read as a blocking reader does from a source that yields
//! these bytes and then reports the end of the stream.

pub mod sync;

use crate::error::{Error, IoErrorKind};
use crate::utils::spec_checksum;
use vstd::bytes::*;
use vstd::math::min;
use vstd::prelude::*;

verus! {

/// The bytes that frame one record: the length header, its checksum, the
/// record bytes and their checksum.
pub open spec fn frame(data: Seq<u8>) -> Seq<u8> {
    let len_buf = spec_u64_to_le_bytes(data.len() as u64);
    len_buf + spec_u32_to_le_bytes(spec_checksum(len_buf)) + data + spec_u32_to_le_bytes(
        spec_checksum(data),
    )
}

/// The bytes of a `Vec<u8>` result, or its error.
pub open spec fn bytes_result(r: Result<Vec<u8>, Error>) -> Result<Seq<u8>, Error> {
    match r {
        Ok(v) => Ok(v@),
        Err(e) => Err(e),
    }
}

/// The bytes of an `Option<Vec<u8>>` result, or its error.
pub open spec fn opt_bytes_result(r: Result<Option<Vec<u8>>, Error>) -> Result<
    Option<Seq<u8>>,
    Error,
> {
    match r {
        Ok(Some(v)) => Ok(Some(v@)),
        Ok(None) => Ok(None),
        Err(e) => Err(e),
    }
}

/// Filling a buffer of `n` bytes from the stream `s`, where an empty stream
/// is the end of the records: the outcome and the number of bytes consumed.
pub open spec fn spec_read_exact_opt(s: Seq<u8>, n: nat) -> (Result<Option<Seq<u8>>, Error>, nat) {
    if n == 0 {
        (Ok(Some(Seq::empty())), 0)
    } else if s.len() == 0 {
        (Ok(None), 0)
    } else if s.len() < n {
        (Err(Error::UnexpectedEof), s.len())
    } else {
        (Ok(Some(s.take(n as int))), n)
    }
}

/// Reading a length header from the stream `s`: the outcome and the number
/// of bytes consumed.
pub open spec fn spec_read_len(s: Seq<u8>, check_integrity: bool) -> (Result<Option<usize>, Error>, nat) {
    if s.len() == 0 {
        (Ok(None), 0)
    } else if s.len() < 8 {
        (Err(Error::UnexpectedEof), s.len())
    } else if s.len() < 12 {
        (Err(Error::IoError { kind: IoErrorKind::UnexpectedEof }), s.len())
    } else {
        let len_buf = s.take(8);
        let expect = spec_u32_from_le_bytes(s.subrange(8, 12));
        let found = spec_checksum(len_buf);
        if check_integrity && expect != found {
            (Err(Error::ChecksumMismatch { expect, found }), 12)
        } else {
            (Ok(Some(spec_u64_from_le_bytes(len_buf) as usize)), 12)
        }
    }
}

/// Reading `len` record bytes and their checksum from the stream `s`: the
/// outcome and the number of bytes consumed.
pub open spec fn spec_read_data(s: Seq<u8>, len: nat, check_integrity: bool) -> (Result<Seq<u8>, Error>, nat) {
    if s.len() < len + 4 {
        (Err(Error::IoError { kind: IoErrorKind::UnexpectedEof }), s.len())
    } else {
        let data = s.take(len as int);
        let expect = spec_u32_from_le_bytes(s.subrange(len as int, len + 4int));
        let found = spec_checksum(data);
        if check_integrity && expect != found {
            (Err(Error::ChecksumMismatch { expect, found }), len + 4)
        } else {
            (Ok(data), len + 4)
        }
    }
}

/// Reading a record consumes no more bytes than the stream holds, and at
/// least one byte of a non-empty stream.
pub proof fn lemma_read_record_consumed(s: Seq<u8>, check_integrity: bool)
    ensures
        spec_read_record(s, check_integrity).1 <= s.len(),
        s.len() > 0 ==> spec_read_record(s, check_integrity).1 > 0,
        spec_read_record(s, check_integrity).0 == Ok::<Option<Seq<u8>>, Error>(None) <==> s.len() == 0,
{
}

/// The bytes of a sequence of records, framed one after another in order.
pub open spec fn encode_records(records: Seq<Seq<u8>>) -> Seq<u8>
    decreases records.len(),
{
    if records.len() == 0 {
        Seq::empty()
    } else {
        encode_records(records.drop_last()) + frame(records.last())
    }
}

/// The results that reading record after record yields from the stream
/// `s`, up to the end of the stream; a failed read is followed by reads
/// from where it stopped.
pub open spec fn spec_read_all(s: Seq<u8>, check_integrity: bool) -> Seq<Result<Seq<u8>, Error>>
    decreases s.len(),
{
    let (r, n) = spec_read_record(s, check_integrity);
    if s.len() == 0 || n == 0 || n > s.len() {
        Seq::empty()
    } else {
        match r {
            Ok(Some(data)) => seq![Ok(data)] + spec_read_all(s.skip(n as int), check_integrity),
            Err(e) => seq![Err(e)] + spec_read_all(s.skip(n as int), check_integrity),
            Ok(None) => Seq::empty(),
        }
    }
}

/// A frame holds, in order: the record length as eight little-endian
/// bytes, the masked checksum of those eight bytes as four little-endian
/// bytes, the record bytes, and the masked checksum of the record bytes as
/// four little-endian bytes.
pub proof fn law_frame_layout(data: Seq<u8>)
    requires
        data.len() <= u64::MAX,
    ensures
        frame(data).len() == data.len() + 16,
        spec_u64_from_le_bytes(frame(data).subrange(0, 8)) == data.len(),
        spec_u32_from_le_bytes(frame(data).subrange(8, 12)) == spec_checksum(frame(data).subrange(0, 8)),
        frame(data).subrange(12, 12 + data.len() as int) == data,
        spec_u32_from_le_bytes(frame(data).subrange(12 + data.len() as int, 16 + data.len() as int))
            == spec_checksum(data),
{
    lemma_auto_spec_u64_to_from_le_bytes();
    lemma_auto_spec_u32_to_from_le_bytes();
    let f = frame(data);
    let len_buf = spec_u64_to_le_bytes(data.len() as u64);
    assert(f.subrange(0, 8) =~= len_buf);
    assert(f.subrange(8, 12) =~= spec_u32_to_le_bytes(spec_checksum(len_buf)));
    assert(f.subrange(12, 12 + data.len() as int) =~= data);
    assert(f.subrange(12 + data.len() as int, 16 + data.len() as int) =~= spec_u32_to_le_bytes(spec_checksum(data)));
}

/// A framed record is 16 bytes longer than the record.
pub proof fn lemma_frame_len(data: Seq<u8>)
    ensures
        frame(data).len() == data.len() + 16,
{
    lemma_auto_spec_u64_to_from_le_bytes();
    lemma_auto_spec_u32_to_from_le_bytes();
}

/// The length header of a framed record reads back as the record length.
pub proof fn lemma_read_len_frame(data: Seq<u8>, rest: Seq<u8>, check_integrity: bool)
    requires
        data.len() <= usize::MAX,
    ensures
        spec_read_len(frame(data) + rest, check_integrity) == (
        Ok::<Option<usize>, Error>(Some(data.len() as usize)),
        12nat,
        ),
{
    lemma_auto_spec_u64_to_from_le_bytes();
    lemma_auto_spec_u32_to_from_le_bytes();
    lemma_frame_len(data);
    let s = frame(data) + rest;
    let len_buf = spec_u64_to_le_bytes(data.len() as u64);
    assert(s.take(8) =~= len_buf);
    assert(s.subrange(8, 12) =~= spec_u32_to_le_bytes(spec_checksum(len_buf)));
}

/// After the length header, the record bytes of a framed record read back
/// as the record.
pub proof fn lemma_read_data_frame(data: Seq<u8>, rest: Seq<u8>, check_integrity: bool)
    ensures
        spec_read_data((frame(data) + rest).skip(12), data.len(), check_integrity) == (
        Ok::<Seq<u8>, Error>(data),
        data.len() + 4,
        ),
{
    lemma_auto_spec_u64_to_from_le_bytes();
    lemma_auto_spec_u32_to_from_le_bytes();
    lemma_frame_len(data);
    let s2 = (frame(data) + rest).skip(12);
    let n = data.len();
    assert(s2.take(n as int) =~= data);
    assert(s2.subrange(n as int, n + 4int) =~= spec_u32_to_le_bytes(spec_checksum(data)));
}

/// Reading a framed record gives back the record bytes, with or without
/// the integrity check, and consumes exactly the frame.
pub proof fn law_read_after_write(data: Seq<u8>, rest: Seq<u8>, check_integrity: bool)
    requires
        data.len() <= usize::MAX,
    ensures
        spec_read_record(frame(data) + rest, check_integrity) == (
        Ok::<Option<Seq<u8>>, Error>(Some(data)),
        frame(data).len(),
        ),
{
    lemma_frame_len(data);
    lemma_read_len_frame(data, rest, check_integrity);
    lemma_read_data_frame(data, rest, check_integrity);
}

/// Framing records one after another is framing the first record, then
/// the others.
pub proof fn lemma_encode_records_first(records: Seq<Seq<u8>>)
    requires
        records.len() > 0,
    ensures
        encode_records(records) == frame(records[0]) + encode_records(records.drop_first()),
    decreases records.len(),
{
    if records.len() == 1 {
        assert(records.drop_last() =~= Seq::<Seq<u8>>::empty());
        assert(records.drop_first() =~= Seq::<Seq<u8>>::empty());
        assert(encode_records(records) =~= frame(records[0]) + encode_records(records.drop_first()));
    } else {
        lemma_encode_records_first(records.drop_last());
        assert(records.drop_last().drop_first() =~= records.drop_first().drop_last());
        assert(records.drop_last()[0] == records[0]);
        assert(records.drop_first().last() == records.last());
        assert(encode_records(records) =~= frame(records[0]) + encode_records(records.drop_first()));
    }
}

/// Reading a stream of framed records gives back every record, in order,
/// and nothing else.
pub proof fn law_read_all_after_write(records: Seq<Seq<u8>>, check_integrity: bool)
    requires
        forall|i: int| 0 <= i < records.len() ==> #[trigger] records[i].len() <= usize::MAX,
    ensures
        spec_read_all(encode_records(records), check_integrity) == records.map_values(
            |d: Seq<u8>| Ok::<Seq<u8>, Error>(d),
        ),
    decreases records.len(),
{
    if records.len() == 0 {
        assert(spec_read_all(encode_records(records), check_integrity) =~= records.map_values(
            |d: Seq<u8>| Ok::<Seq<u8>, Error>(d),
        ));
    } else {
        let first = records[0];
        let tail = records.drop_first();
        lemma_encode_records_first(records);
        law_read_after_write(first, encode_records(tail), check_integrity);
        lemma_frame_len(first);
        let s = encode_records(records);
        assert(s.skip(frame(first).len() as int) =~= encode_records(tail));
        assert forall|i: int| 0 <= i < tail.len() implies #[trigger] tail[i].len() <= usize::MAX by {
            assert(tail[i] == records[i + 1]);
        }
        law_read_all_after_write(tail, check_integrity);
        assert(spec_read_all(s, check_integrity) =~= records.map_values(
            |d: Seq<u8>| Ok::<Seq<u8>, Error>(d),
        ));
    }
}

/// Reading one record from the stream `s`: the outcome and the number of
/// bytes consumed.
pub open spec fn spec_read_record(s: Seq<u8>, check_integrity: bool) -> (Result<Option<Seq<u8>>, Error>, nat) {
    let (len_r, n1) = spec_read_len(s, check_integrity);
    match len_r {
        Err(e) => (Err(e), n1),
        Ok(None) => (Ok(None), n1),
        Ok(Some(len)) => {
            let (data_r, n2) = spec_read_data(s.skip(n1 as int), len as nat, check_integrity);
            match data_r {
                Err(e) => (Err(e), n1 + n2),
                Ok(data) => (Ok(Some(data)), n1 + n2),
            }
        },
    }
}

/// A cursor over the bytes of a TFRecord stream.
///
/// Reading starts at the current position; the position may be moved past
/// the end by seeking, and reads from there find the end of the stream.
pub struct ByteReader {
    data: Vec<u8>,
    pos: u64,
}

impl ByteReader {
    /// All bytes of the stream.
    pub closed spec fn content(&self) -> Seq<u8> {
        self.data@
    }

    /// The current position in the stream.
    pub closed spec fn pos(&self) -> nat {
        self.pos as nat
    }

    /// The bytes that reads from the current position yield.
    pub open spec fn remaining(&self) -> Seq<u8> {
        if self.pos() <= self.content().len() {
            self.content().skip(self.pos() as int)
        } else {
            Seq::empty()
        }
    }

    /// Advancing the position by `n` bytes of the remaining ones leaves the
    /// remaining bytes after those `n`.
    pub proof fn lemma_advance(old_reader: &Self, new_reader: &Self, n: nat)
        requires
            new_reader.content() == old_reader.content(),
            new_reader.pos() == old_reader.pos() + n,
            n <= old_reader.remaining().len(),
        ensures
            new_reader.remaining() == old_reader.remaining().skip(n as int),
    {
        if old_reader.pos() <= old_reader.content().len() {
            assert(new_reader.remaining() =~= old_reader.remaining().skip(n as int));
        }
    }

    /// Build a reader positioned at the start of `data`.
    pub fn new(data: Vec<u8>) -> (r: Self)
        ensures
            r.content() == data@,
            r.pos() == 0,
    {
        ByteReader { data, pos: 0 }
    }

    /// The current position.
    pub fn position(&self) -> (r: u64)
        ensures
            r == self.pos(),
    {
        self.pos
    }

    /// Move to an absolute position; positions past the end are allowed.
    pub fn seek(&mut self, offset: u64)
        ensures
            final(self).content() == old(self).content(),
            final(self).pos() == offset,
    {
        self.pos = offset;
    }

    /// Move forward by `n` bytes from the current position.
    ///
    /// Fails with [IoErrorKind::InvalidInput] when `n` is above `i64::MAX`
    /// or the new position would overflow, as a relative seek does.
    pub fn seek_forward(&mut self, n: usize) -> (r: Result<u64, Error>)
        ensures
            final(self).content() == old(self).content(),
            (n <= i64::MAX && old(self).pos() + n <= u64::MAX) ==> {
                &&& r == Ok::<u64, Error>((old(self).pos() + n) as u64)
                &&& final(self).pos() == old(self).pos() + n
            },
            !(n <= i64::MAX && old(self).pos() + n <= u64::MAX) ==> {
                &&& r == Err::<u64, Error>(Error::IoError { kind: IoErrorKind::InvalidInput })
                &&& final(self).pos() == old(self).pos()
            },
    {
        if n as u64 > i64::MAX as u64 {
            return Err(Error::IoError { kind: IoErrorKind::InvalidInput });
        }
        match self.pos.checked_add(n as u64) {
            Some(p) => {
                self.pos = p;
                Ok(p)
            },
            None => Err(Error::IoError { kind: IoErrorKind::InvalidInput }),
        }
    }

    /// Read up to `n` bytes: all remaining bytes if fewer than `n` remain.
    pub fn read(&mut self, n: usize) -> (r: Vec<u8>)
        ensures
            final(self).content() == old(self).content(),
            r@ == old(self).remaining().take(min(n as int, old(self).remaining().len() as int)),
            final(self).pos() == old(self).pos() + r@.len(),
    {
        let len = self.data.len();
        let mut out: Vec<u8> = Vec::new();
        if self.pos >= len as u64 {
            return out;
        }
        let start = self.pos as usize;
        let avail = len - start;
        let count = if n < avail { n } else { avail };
        let mut i: usize = 0;
        while i < count
            invariant
                start + count <= len,
                len == self.data@.len(),
                out@ == self.data@.subrange(start as int, start + i),
                i <= count,
            decreases count - i,
        {
            out.push(self.data[start + i]);
            i = i + 1;
        }
        proof {
            assert(out@ =~= old(self).remaining().take(
                min(n as int, old(self).remaining().len() as int),
            ));
        }
        self.pos = self.pos + count as u64;
        out
    }

    /// Read exactly `n` bytes.
    ///
    /// When fewer than `n` bytes remain, the remaining bytes are consumed and
    /// the read fails with [IoErrorKind::UnexpectedEof].
    pub fn read_exact(&mut self, n: usize) -> (r: Result<Vec<u8>, Error>)
        ensures
            final(self).content() == old(self).content(),
            n <= old(self).remaining().len() ==> {
                &&& r == Ok::<Vec<u8>, Error>(r->Ok_0)
                &&& r->Ok_0@ == old(self).remaining().take(n as int)
                &&& final(self).pos() == old(self).pos() + n
            },
            n > old(self).remaining().len() ==> {
                &&& r == Err::<Vec<u8>, Error>(Error::IoError { kind: IoErrorKind::UnexpectedEof })
                &&& final(self).pos() == old(self).pos() + old(self).remaining().len()
            },
    {
        let buf = self.read(n);
        if buf.len() < n {
            Err(Error::IoError { kind: IoErrorKind::UnexpectedEof })
        } else {
            Ok(buf)
        }
    }
}

} // verus!
