//! Reading TFRecord streams record by record.
//!
//! A [RecordIter] yields the raw bytes of each record of a [ByteReader];
//! the [RecordReaderConfig], [RecordReaderInit] and [RecordStreamInit]
//! values say whether checksums are verified.

use crate::error::Error;
use crate::io::sync::try_read_record;
use crate::io::{
    encode_records, law_read_all_after_write, lemma_read_record_consumed, spec_read_all,
    spec_read_record, ByteReader,
};
use vstd::prelude::*;

verus! {

/// The reader configuration.
#[derive(Debug, Clone, PartialEq, Eq, Hash, Structural)]
pub struct RecordReaderConfig {
    pub check_integrity: bool,
}

impl Default for RecordReaderConfig {
    fn default() -> (r: Self)
        ensures
            r.check_integrity,
    {
        Self { check_integrity: true }
    }
}

/// The reader initializer.
#[derive(Debug, Clone, PartialEq, Eq, Hash, Structural)]
pub struct RecordReaderInit {
    pub check_integrity: bool,
}

impl Default for RecordReaderInit {
    fn default() -> (r: Self)
        ensures
            r.check_integrity,
    {
        Self { check_integrity: true }
    }
}

impl RecordReaderInit {
    /// Construct a [RecordIter] over a reader.
    pub fn from_reader(self, reader: ByteReader) -> (r: Result<RecordIter, Error>)
        ensures
            r is Ok,
            r->Ok_0.pending() == Some(reader.remaining()),
            r->Ok_0.check_integrity() == self.check_integrity,
    {
        Ok(RecordIter::from_reader(reader, RecordReaderConfig { check_integrity: self.check_integrity }))
    }
}

/// The stream initializer.
#[derive(Debug, Clone, PartialEq, Eq, Hash, Structural)]
pub struct RecordStreamInit {
    pub check_integrity: bool,
}

impl Default for RecordStreamInit {
    fn default() -> (r: Self)
        ensures
            r.check_integrity,
    {
        Self { check_integrity: true }
    }
}

/// Iterates the raw bytes of the records of a reader.
pub struct RecordIter {
    reader: Option<ByteReader>,
    check_integrity: bool,
}

/// Alias to [RecordIter], whose items are the record bytes.
pub type BytesIter = RecordIter;

/// The raw bytes of an item, or its error.
pub open spec fn item_view(item: Option<Result<Vec<u8>, Error>>) -> Option<Result<Seq<u8>, Error>> {
    match item {
        Some(Ok(v)) => Some(Ok(v@)),
        Some(Err(e)) => Some(Err(e)),
        None => None,
    }
}

impl RecordIter {
    /// The bytes still to be read, or `None` once the end was reached.
    pub closed spec fn pending(&self) -> Option<Seq<u8>> {
        match self.reader {
            Some(r) => Some(r.remaining()),
            None => None,
        }
    }

    /// Whether checksums are verified.
    pub closed spec fn check_integrity(&self) -> bool {
        self.check_integrity
    }

    /// The items that the iterator has still to yield.
    pub open spec fn items(&self) -> Seq<Result<Seq<u8>, Error>> {
        match self.pending() {
            Some(s) => spec_read_all(s, self.check_integrity()),
            None => Seq::empty(),
        }
    }

    /// Construct a [RecordIter] from a reader.
    pub fn from_reader(reader: ByteReader, config: RecordReaderConfig) -> (r: Self)
        ensures
            r.pending() == Some(reader.remaining()),
            r.check_integrity() == config.check_integrity,
    {
        let RecordReaderConfig { check_integrity } = config;
        Self { reader: Some(reader), check_integrity }
    }

    /// Read the next record.
    ///
    /// It returns `None` once the stream ends, and from then on. A failed
    /// read yields its error, and the next call reads from where it stopped.
    pub fn next(&mut self) -> (r: Option<Result<Vec<u8>, Error>>)
        ensures
            final(self).check_integrity() == old(self).check_integrity(),
            old(self).pending() is None ==> r is None && final(self).pending() is None,
            old(self).pending() matches Some(s) ==> {
                let (res, n) = spec_read_record(s, old(self).check_integrity());
                match res {
                    Ok(None) => r is None && final(self).pending() is None,
                    Ok(Some(data)) => item_view(r) == Some(Ok::<Seq<u8>, Error>(data))
                        && final(self).pending() == Some(s.skip(n as int)),
                    Err(e) => item_view(r) == Some(Err::<Seq<u8>, Error>(e))
                        && final(self).pending() == Some(s.skip(n as int)),
                }
            },
            old(self).items().len() == 0 ==> r is None,
            old(self).items().len() > 0 ==> item_view(r) == Some(old(self).items()[0]),
            final(self).items() == old(self).items().drop_first() || (old(self).items().len()
                == 0 && final(self).items().len() == 0),
    {
        let check_integrity = self.check_integrity;
        let mut reader = match self.reader.take() {
            Some(reader) => reader,
            None => return None,
        };
        let ghost old_reader = reader;
        let ghost s = reader.remaining();
        let result = try_read_record(&mut reader, check_integrity);
        proof {
            lemma_read_record_consumed(s, check_integrity);
            ByteReader::lemma_advance(&old_reader, &reader, spec_read_record(s, check_integrity).1);
            assert(spec_read_all(s, check_integrity).len() > 0 ==> spec_read_all(
                s.skip(spec_read_record(s, check_integrity).1 as int),
                check_integrity,
            ) =~= spec_read_all(s, check_integrity).drop_first());
        }
        match result {
            Ok(None) => {
                self.reader = None;
                None
            },
            Ok(Some(bytes)) => {
                self.reader = Some(reader);
                Some(Ok(bytes))
            },
            Err(err) => {
                self.reader = Some(reader);
                Some(Err(err))
            },
        }
    }
}

/// An iterator over the bytes of records written one after another yields
/// each record, in order, and nothing else, with or without the integrity
/// check.
pub proof fn law_iter_yields_written(iter: RecordIter, records: Seq<Seq<u8>>)
    requires
        forall|i: int| 0 <= i < records.len() ==> #[trigger] records[i].len() <= usize::MAX,
        iter.pending() == Some(encode_records(records)),
    ensures
        iter.items() == records.map_values(|d: Seq<u8>| Ok::<Seq<u8>, Error>(d)),
{
    law_read_all_after_write(records, iter.check_integrity());
}

} // verus!
