# tfrecord

Reading and writing TensorFlow's TFRecord container format, with the
record framing, checksums, indexing and tensor building proved by Verus.

A TFRecord stream is a sequence of frames. Each frame holds the record
length as a little-endian `u64`, the masked CRC-32C of those eight bytes,
the record bytes, and the masked CRC-32C of the record bytes.

## Layout

- `src/` is the verified library.
  - `utils`: the masked CRC-32C checksum (the CRC itself comes from the
    `crc` crate).
  - `io`: a byte cursor, the specification of frames, and the functions
    that frame and unframe one record; the laws that reading gives back
    what writing wrote.
  - `reader`, `writer`: iterating the records of a stream and appending
    records to a sink.
  - `indexer`, `dataset`: the positions of the records of a stream, reading
    a record at a position, and choosing and ordering the files of a
    dataset.
  - `protos`, `record`, `protobuf_ext`, `conversions`, `ops`: TensorFlow's
    message types as plain values, the conversion between features and
    their messages, and tensors built from shapes, elements and image
    samples.
  - `event_writer`, `codegen`: the names of event files and the parsing of
    the protocol-buffer build method.
- `app/` holds what the verifier does not see: files and directories, the
  environment, `prost` encoding of messages, `serde` derives, the `image`
  and `ndarray` conversions, and the floating-point histogram.
- `tests/` exercises the library on concrete values.
