//! The indexer that enumerates record locations in a TFRecord stream.

use crate::error::{Error, IoErrorKind};
use crate::io::sync::{try_read_len, try_read_record_data};
use crate::io::{
    bytes_result, encode_records, frame, lemma_encode_records_first, lemma_frame_len,
    lemma_read_data_frame, lemma_read_len_frame, spec_read_data, spec_read_len, ByteReader,
};
use vstd::prelude::*;

verus! {

/// Record position in a stream: the offset of the record bytes and their
/// length.
#[derive(Debug, Clone, Copy, PartialEq, Eq, Hash, Structural)]
pub struct Position {
    pub offset: u64,
    pub len: usize,
}

/// Configuration for indexer methods.
#[derive(Debug, Clone, PartialEq, Eq, Hash, Structural)]
pub struct RecordIndexerConfig {
    pub check_integrity: bool,
}

impl Default for RecordIndexerConfig {
    fn default() -> (r: Self)
        ensures
            r.check_integrity,
    {
        Self { check_integrity: true }
    }
}

/// The bytes that reads find at position `pos` of `content`.
pub open spec fn bytes_at(content: Seq<u8>, pos: nat) -> Seq<u8> {
    if pos <= content.len() {
        content.skip(pos as int)
    } else {
        Seq::empty()
    }
}

/// The result of moving past a record's bytes and their checksum at `pos`
/// of `content`: with the integrity check they are read and checked;
/// without it the position moves forward over them, the record length and
/// four checksum bytes. The outcome and the new position.
pub open spec fn spec_skip_or_check(content: Seq<u8>, pos: nat, len: usize, check_integrity: bool) -> (
    Result<(), Error>,
    nat,
) {
    if check_integrity {
        let (r, n) = spec_read_data(bytes_at(content, pos), len as nat, true);
        match r {
            Ok(_) => (Ok(()), pos + n),
            Err(e) => (Err(e), pos + n),
        }
    } else if len + 4 <= usize::MAX && len + 4 <= i64::MAX && pos + len + 4 <= u64::MAX {
        (Ok(()), pos + (len as nat) + 4)
    } else {
        (Err(Error::IoError { kind: IoErrorKind::InvalidInput }), pos)
    }
}

/// The positions that indexing `content` from `pos` yields; indexing stops
/// after the first error.
pub open spec fn spec_load_positions(content: Seq<u8>, pos: nat, check_integrity: bool) -> Seq<
    Result<Position, Error>,
>
    decreases content.len() - pos,
{
    let (len_r, n1) = spec_read_len(bytes_at(content, pos), check_integrity);
    match len_r {
        Ok(None) => Seq::empty(),
        Err(e) => seq![Err(e)],
        Ok(Some(len)) => {
            let offset = pos + n1;
            let (skip_r, next) = spec_skip_or_check(content, offset, len, check_integrity);
            match skip_r {
                Err(e) => seq![Err(e)],
                Ok(_) => {
                    let here = Ok(Position { offset: offset as u64, len });
                    if pos < next && next <= content.len() {
                        seq![here] + spec_load_positions(content, next, check_integrity)
                    } else {
                        seq![here]
                    }
                },
            }
        },
    }
}

/// The positions of the framed records in a stream that starts with their
/// frames at `start`.
pub open spec fn spec_record_positions(records: Seq<Seq<u8>>, start: nat) -> Seq<Position>
    decreases records.len(),
{
    if records.len() == 0 {
        Seq::empty()
    } else {
        seq![Position { offset: (start + 12) as u64, len: records[0].len() as usize }]
            + spec_record_positions(records.drop_first(), start + records[0].len() + 16)
    }
}

/// The (offset, length) pairs of the records that indexing `content` from
/// `pos` yields, reading each record's bytes and checksum; indexing stops
/// after the first error.
pub open spec fn spec_record_indexes(content: Seq<u8>, pos: nat, check_integrity: bool) -> Seq<
    Result<(u64, usize), Error>,
>
    decreases content.len() - pos,
{
    let (len_r, n1) = spec_read_len(bytes_at(content, pos), check_integrity);
    match len_r {
        Ok(None) => Seq::empty(),
        Err(e) => seq![Err(e)],
        Ok(Some(len)) => {
            let offset = pos + n1;
            let (data_r, n2) = spec_read_data(bytes_at(content, offset), len as nat, check_integrity);
            match data_r {
                Err(e) => seq![Err(e)],
                Ok(_) => {
                    let next = offset + n2;
                    if pos < next && next <= content.len() {
                        seq![Ok((offset as u64, len))] + spec_record_indexes(
                            content,
                            next,
                            check_integrity,
                        )
                    } else {
                        seq![Ok((offset as u64, len))]
                    }
                },
            }
        },
    }
}

/// Whether every record is short enough that moving past it and its
/// checksum is a seek that can be made: the distance fits in a `usize` and
/// in an `i64`.
pub open spec fn seeks_fit(records: Seq<Seq<u8>>) -> bool {
    forall|i: int|
        0 <= i < records.len() ==> #[trigger] records[i].len() + 4 <= usize::MAX
            && records[i].len() + 4 <= i64::MAX
}

/// Indexing bytes that end with framed records, from the first frame,
/// finds each record where it was written, and the bytes read at each
/// position are the record. Reading each record to index it does so with
/// or without the integrity check; moving past each record does so with
/// the check, and without it where the seeks can be made.
pub proof fn lemma_index_frames(prefix: Seq<u8>, records: Seq<Seq<u8>>, check_integrity: bool)
    requires
        forall|i: int| 0 <= i < records.len() ==> #[trigger] records[i].len() <= usize::MAX,
        prefix.len() + encode_records(records).len() <= u64::MAX,
    ensures
        check_integrity || seeks_fit(records) ==> spec_load_positions(
            prefix + encode_records(records),
            prefix.len(),
            check_integrity,
        ) == spec_record_positions(records, prefix.len()).map_values(
            |p: Position| Ok::<Position, Error>(p),
        ),
        spec_record_indexes(prefix + encode_records(records), prefix.len(), check_integrity)
            == spec_record_positions(records, prefix.len()).map_values(
            |p: Position| Ok::<(u64, usize), Error>((p.offset, p.len)),
        ),
        spec_record_positions(records, prefix.len()).len() == records.len(),
        forall|i: int|
            0 <= i < records.len() ==> spec_read_data(
                bytes_at(
                    prefix + encode_records(records),
                    #[trigger] spec_record_positions(records, prefix.len())[i].offset as nat,
                ),
                spec_record_positions(records, prefix.len())[i].len as nat,
                false,
            ).0 == Ok::<Seq<u8>, Error>(records[i]),
    decreases records.len(),
{
    let content = prefix + encode_records(records);
    let pos = prefix.len();
    if records.len() == 0 {
        assert(content =~= prefix);
        assert(bytes_at(content, pos) =~= Seq::<u8>::empty());
        assert(spec_load_positions(content, pos, check_integrity) =~= spec_record_positions(
            records,
            pos,
        ).map_values(|p: Position| Ok::<Position, Error>(p)));
        assert(spec_record_indexes(content, pos, check_integrity) =~= spec_record_positions(
            records,
            pos,
        ).map_values(|p: Position| Ok::<(u64, usize), Error>((p.offset, p.len))));
    } else {
        let first = records[0];
        let tail = records.drop_first();
        lemma_encode_records_first(records);
        lemma_frame_len(first);
        let rest = encode_records(tail);
        let next_prefix = prefix + frame(first);
        assert(content =~= next_prefix + rest);
        assert forall|i: int| 0 <= i < tail.len() implies #[trigger] tail[i].len() <= usize::MAX by {
            assert(tail[i] == records[i + 1]);
        }
        if seeks_fit(records) {
            assert forall|i: int| 0 <= i < tail.len() implies #[trigger] tail[i].len() + 4
                <= usize::MAX && tail[i].len() + 4 <= i64::MAX by {
                assert(tail[i] == records[i + 1]);
            }
            assert(first.len() + 4 <= usize::MAX && first.len() + 4 <= i64::MAX);
        }
        lemma_index_step(prefix, first, rest, check_integrity);
        lemma_index_frames(next_prefix, tail, check_integrity);
        let ps = spec_record_positions(records, pos);
        let tail_ps = spec_record_positions(tail, next_prefix.len());
        let here = Position { offset: (pos + 12) as u64, len: first.len() as usize };
        assert(next_prefix.len() == pos + first.len() + 16);
        assert(ps =~= seq![here] + tail_ps);
        if check_integrity || seeks_fit(records) {
            assert(ps.map_values(|p: Position| Ok::<Position, Error>(p)) =~= seq![
                Ok::<Position, Error>(here),
            ] + tail_ps.map_values(|p: Position| Ok::<Position, Error>(p)));
        }
        assert(ps.map_values(|p: Position| Ok::<(u64, usize), Error>((p.offset, p.len))) =~= seq![
            Ok::<(u64, usize), Error>((here.offset, here.len)),
        ] + tail_ps.map_values(|p: Position| Ok::<(u64, usize), Error>((p.offset, p.len))));
        assert forall|i: int| 0 <= i < records.len() implies spec_read_data(
            bytes_at(content, #[trigger] ps[i].offset as nat),
            ps[i].len as nat,
            false,
        ).0 == Ok::<Seq<u8>, Error>(records[i]) by {
            if i > 0 {
                assert(ps[i] == tail_ps[i - 1]);
                assert(records[i] == tail[i - 1]);
            }
        }
    }
}

/// One frame at the front of what is left: indexing finds the record
/// right after its length header and goes on after the frame, and the
/// bytes there are the record.
proof fn lemma_index_step(prefix: Seq<u8>, first: Seq<u8>, rest: Seq<u8>, check_integrity: bool)
    requires
        first.len() <= usize::MAX,
        prefix.len() + first.len() + 16 + rest.len() <= u64::MAX,
    ensures
        ({
            let content = prefix + frame(first) + rest;
            let pos = prefix.len();
            let next = pos + first.len() + 16;
            let here = Position { offset: (pos + 12) as u64, len: first.len() as usize };
            &&& (check_integrity || (first.len() + 4 <= usize::MAX && first.len() + 4 <= i64::MAX))
                ==> spec_load_positions(content, pos, check_integrity) == seq![
                Ok::<Position, Error>(here),
            ] + spec_load_positions(content, next, check_integrity)
            &&& spec_record_indexes(content, pos, check_integrity) == seq![
                Ok::<(u64, usize), Error>((here.offset, here.len)),
            ] + spec_record_indexes(content, next, check_integrity)
            &&& spec_read_data(bytes_at(content, pos + 12), first.len(), false).0 == Ok::<
                Seq<u8>,
                Error,
            >(first)
        }),
{
    let content = prefix + frame(first) + rest;
    let pos = prefix.len();
    lemma_frame_len(first);
    assert(bytes_at(content, pos) =~= frame(first) + rest);
    lemma_read_len_frame(first, rest, check_integrity);
    lemma_read_data_frame(first, rest, check_integrity);
    lemma_read_data_frame(first, rest, true);
    lemma_read_data_frame(first, rest, false);
    assert(bytes_at(content, pos + 12) =~= (frame(first) + rest).skip(12));
}

/// Indexing a stream of framed records finds every record, in order, with
/// or without the integrity check; reading the bytes at each found
/// position gives back the record. Without the check, each record must be
/// short enough that the seek past it can be made.
pub proof fn law_index_then_read(records: Seq<Seq<u8>>, check_integrity: bool)
    requires
        forall|i: int| 0 <= i < records.len() ==> #[trigger] records[i].len() <= usize::MAX,
        encode_records(records).len() <= u64::MAX,
        check_integrity || seeks_fit(records),
    ensures
        spec_load_positions(encode_records(records), 0, check_integrity) == spec_record_positions(
            records,
            0,
        ).map_values(|p: Position| Ok::<Position, Error>(p)),
        spec_record_positions(records, 0).len() == records.len(),
        forall|i: int|
            0 <= i < records.len() ==> spec_read_data(
                bytes_at(
                    encode_records(records),
                    #[trigger] spec_record_positions(records, 0)[i].offset as nat,
                ),
                spec_record_positions(records, 0)[i].len as nat,
                false,
            ).0 == Ok::<Seq<u8>, Error>(records[i]),
{
    let empty = Seq::<u8>::empty();
    assert(empty + encode_records(records) =~= encode_records(records));
    lemma_index_frames(empty, records, check_integrity);
}

/// Move past the bytes of a record and their checksum, checking them if
/// requested.
pub fn skip_or_check(reader: &mut ByteReader, len: usize, check_integrity: bool) -> (r: Result<
    (),
    Error,
>)
    ensures
        final(reader).content() == old(reader).content(),
        (r, final(reader).pos()) == spec_skip_or_check(
            old(reader).content(),
            old(reader).pos(),
            len,
            check_integrity,
        ),
{
    if check_integrity {
        try_read_record_data(reader, len, check_integrity)?;
    } else {
        let n = match len.checked_add(4) {
            Some(n) => n,
            None => return Err(Error::IoError { kind: IoErrorKind::InvalidInput }),
        };
        reader.seek_forward(n)?;
    }
    Ok(())
}

/// Read the record bytes of length `len` at `offset`, without checking
/// them.
pub fn read_record_at(reader: &mut ByteReader, offset: u64, len: usize) -> (r: Result<
    Vec<u8>,
    Error,
>)
    ensures
        final(reader).content() == old(reader).content(),
        bytes_result(r) == spec_read_data(
            bytes_at(old(reader).content(), offset as nat),
            len as nat,
            false,
        ).0,
{
    reader.seek(offset);
    let bytes = try_read_record_data(reader, len, false)?;
    Ok(bytes)
}

/// Enumerate the positions of the records of a reader, from its current
/// position; the enumeration ends at the end of the stream or after the
/// first error.
pub fn load_reader(reader: ByteReader, config: RecordIndexerConfig) -> (r: Vec<
    Result<Position, Error>,
>)
    ensures
        r@ == spec_load_positions(reader.content(), reader.pos(), config.check_integrity),
{
    let RecordIndexerConfig { check_integrity } = config;
    let ghost content = reader.content();
    let ghost pos0 = reader.pos();
    let mut reader = reader;
    let mut out: Vec<Result<Position, Error>> = Vec::new();
    loop
        invariant_except_break
            reader.content() == content,
            out@ + spec_load_positions(content, reader.pos(), check_integrity)
                == spec_load_positions(content, pos0, check_integrity),
        ensures
            out@ == spec_load_positions(content, pos0, check_integrity),
        decreases (if reader.pos() <= content.len() {
            content.len() - reader.pos() + 1
        } else {
            0
        }),
    {
        let len = match try_read_len(&mut reader, check_integrity) {
            Ok(Some(len)) => len,
            Ok(None) => {
                proof {
                    assert(out@ =~= out@ + Seq::<Result<Position, Error>>::empty());
                }
                break ;
            },
            Err(err) => {
                out.push(Err(err));
                break ;
            },
        };
        let offset = reader.position();
        match skip_or_check(&mut reader, len, check_integrity) {
            Ok(()) => {
                out.push(Ok(Position { offset, len }));
            },
            Err(err) => {
                out.push(Err(err));
                break ;
            },
        }
    }
    out
}

} // verus!
