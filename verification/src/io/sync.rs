//! Blocking record I/O over a [ByteReader] and a `Vec<u8>` sink.

use crate::error::{Error, IoErrorKind};
use crate::io::{
    bytes_result, frame, opt_bytes_result, spec_read_data, spec_read_exact_opt, spec_read_len,
    spec_read_record, ByteReader,
};
use crate::utils::{checksum, spec_checksum, verify_checksum};
use vstd::bytes::*;
use vstd::prelude::*;

verus! {

/// Try to extract raw bytes of a record from a reader.
///
/// It reads the record length and data, and verifies the checksums if
/// requested. If the end of the stream is reached before a record starts,
/// it returns `Ok(None)`.
pub fn try_read_record(reader: &mut ByteReader, check_integrity: bool) -> (r: Result<
    Option<Vec<u8>>,
    Error,
>)
    ensures
        final(reader).content() == old(reader).content(),
        opt_bytes_result(r) == spec_read_record(old(reader).remaining(), check_integrity).0,
        final(reader).pos() == old(reader).pos() + spec_read_record(
            old(reader).remaining(),
            check_integrity,
        ).1,
{
    let ghost s = reader.remaining();
    let len = match try_read_len(reader, check_integrity)? {
        Some(len) => len,
        None => return Ok(None),
    };
    proof {
        assert(reader.remaining() =~= s.skip(12));
    }
    let data = try_read_record_data(reader, len, check_integrity)?;
    Ok(Some(data))
}

/// Try to read the record length from a reader.
///
/// It returns `Ok(None)` if the stream ends before the length header starts.
pub fn try_read_len(reader: &mut ByteReader, check_integrity: bool) -> (r: Result<
    Option<usize>,
    Error,
>)
    ensures
        final(reader).content() == old(reader).content(),
        r == spec_read_len(old(reader).remaining(), check_integrity).0,
        final(reader).pos() == old(reader).pos() + spec_read_len(
            old(reader).remaining(),
            check_integrity,
        ).1,
{
    let ghost s = reader.remaining();
    let len_buf = match try_read_exact(reader, 8)? {
        Some(buf) => buf,
        None => return Ok(None),
    };
    proof {
        assert(reader.remaining() =~= s.skip(8));
    }
    let len = u64_from_le_bytes(len_buf.as_slice());
    let expect_cksum = {
        let buf = reader.read_exact(4)?;
        u32_from_le_bytes(buf.as_slice())
    };
    proof {
        assert(s.subrange(8, 12) =~= s.skip(8).take(4));
    }
    if check_integrity {
        verify_checksum(len_buf.as_slice(), expect_cksum)?;
    }
    Ok(Some(len as usize))
}

/// Read the record bytes of the given length, and their checksum.
pub fn try_read_record_data(reader: &mut ByteReader, len: usize, check_integrity: bool) -> (r:
    Result<Vec<u8>, Error>)
    ensures
        final(reader).content() == old(reader).content(),
        bytes_result(r) == spec_read_data(old(reader).remaining(), len as nat, check_integrity).0,
        final(reader).pos() == old(reader).pos() + spec_read_data(
            old(reader).remaining(),
            len as nat,
            check_integrity,
        ).1,
{
    let ghost s = reader.remaining();
    let buf = reader.read_exact(len)?;
    proof {
        assert(reader.remaining() =~= s.skip(len as int));
    }
    let expect_cksum = {
        let cksum_buf = reader.read_exact(4)?;
        u32_from_le_bytes(cksum_buf.as_slice())
    };
    proof {
        assert(s.subrange(len as int, len + 4int) =~= s.skip(len as int).take(4));
    }
    if check_integrity {
        verify_checksum(buf.as_slice(), expect_cksum)?;
    }
    Ok(buf)
}

/// Append the framed record bytes to a writer.
pub fn try_write_record(writer: &mut Vec<u8>, bytes: Vec<u8>) -> (r: Result<(), Error>)
    ensures
        r is Ok,
        final(writer)@ == old(writer)@ + frame(bytes@),
{
    let len = bytes.len();
    let mut len_buf = u64_to_le_bytes(len as u64);
    let len_cksum = checksum(len_buf.as_slice());
    let mut len_cksum_buf = u32_to_le_bytes(len_cksum);
    let data_cksum = checksum(bytes.as_slice());
    let mut data_cksum_buf = u32_to_le_bytes(data_cksum);
    let mut data = bytes;
    let ghost lb = len_buf@;
    let ghost d = data@;
    writer.append(&mut len_buf);
    writer.append(&mut len_cksum_buf);
    writer.append(&mut data);
    writer.append(&mut data_cksum_buf);
    proof {
        assert(final(writer)@ =~= old(writer)@ + frame(d));
    }
    Ok(())
}

/// Fill a buffer of `len` bytes from the reader, where an empty stream is
/// the end of the records.
///
/// It returns `Ok(None)` when the stream ends before any byte is read and
/// fails with [Error::UnexpectedEof] when it ends after some but not all.
fn try_read_exact(reader: &mut ByteReader, len: usize) -> (r: Result<Option<Vec<u8>>, Error>)
    ensures
        final(reader).content() == old(reader).content(),
        opt_bytes_result(r) == spec_read_exact_opt(old(reader).remaining(), len as nat).0,
        final(reader).pos() == old(reader).pos() + spec_read_exact_opt(
            old(reader).remaining(),
            len as nat,
        ).1,
{
    let ghost s = reader.remaining();
    let ghost pos0 = reader.pos();
    let mut buf: Vec<u8> = vec![0u8; len];
    let mut offset: usize = 0;
    loop
        invariant
            reader.content() == old(reader).content(),
            s == old(reader).remaining(),
            pos0 == old(reader).pos(),
            reader.pos() == pos0 + offset,
            reader.remaining() == s.skip(offset as int),
            offset <= len,
            len > 0 ==> offset < len,
            offset <= s.len(),
            buf@.len() == len,
            buf@.take(offset as int) == s.take(offset as int),
        decreases len - offset,
    {
        let chunk = reader.read(len - offset);
        let n = chunk.len();
        if n == 0 {
            if offset == len {
                proof {
                    assert(buf@ =~= Seq::<u8>::empty());
                }
                return Ok(Some(buf));
            } else if offset == 0 {
                return Ok(None);
            } else {
                return Err(Error::UnexpectedEof);
            }
        }
        let mut j: usize = 0;
        while j < n
            invariant
                n == chunk@.len(),
                offset + n <= len,
                buf@.len() == len,
                buf@.take(offset as int) == s.take(offset as int),
                chunk@ == s.skip(offset as int).take(n as int),
                offset + n <= s.len(),
                j <= n,
                forall|k: int| 0 <= k < j ==> buf@[offset + k] == chunk@[k],
            decreases n - j,
        {
            buf.set(offset + j, chunk[j]);
            j = j + 1;
        }
        proof {
            assert forall|k: int| 0 <= k < offset + n implies buf@[k] == s[k] by {
                if k < offset {
                    assert(buf@.take(offset as int)[k] == s.take(offset as int)[k]);
                } else {
                    assert(buf@[offset + (k - offset)] == chunk@[k - offset]);
                }
            }
            assert(buf@.take(offset + n) =~= s.take(offset + n));
            assert(reader.remaining() =~= s.skip(offset + n));
        }
        offset = offset + n;
        if offset == len {
            proof {
                assert(buf@ =~= buf@.take(offset as int));
            }
            return Ok(Some(buf));
        }
    }
}

} // verus!
