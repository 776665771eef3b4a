//! Row sources and sinks: delimiter-separated framing, one pair per data mode.
//!
//! The framing itself (quoting, escaping, terminators) is consumed, not
//! implemented: what the reader yields for given input bytes and delimiter,
//! and what the writer emits for given rows and delimiter, are deterministic
//! functions of those arguments and are given names here. A reader's state is
//! the rows it has yet to yield; a writer's state is the rows it has accepted
//! so far. Both are framed with a flexible field count: rows of differing
//! widths are never an error. For text rows, a field that is not valid UTF-8
//! is reported as a diagnostic; `text_rows_of` names the rows the reader
//! yields up to its end or such a failure.

use vstd::prelude::*;

verus! {

/// The rows (sequences of text fields) that the framing yields for these
/// input bytes and this delimiter.
pub uninterp spec fn text_rows_of(input: Seq<u8>, delimiter: u8) -> Seq<Seq<Seq<char>>>;

/// The rows (sequences of byte fields) that the framing yields for these
/// input bytes and this delimiter.
pub uninterp spec fn byte_rows_of(input: Seq<u8>, delimiter: u8) -> Seq<Seq<Seq<u8>>>;

/// The bytes the framing emits for these text rows and this delimiter.
pub uninterp spec fn text_csv_of(rows: Seq<Seq<Seq<char>>>, delimiter: u8) -> Seq<u8>;

/// The bytes the framing emits for these byte rows and this delimiter.
pub uninterp spec fn byte_csv_of(rows: Seq<Seq<Seq<u8>>>, delimiter: u8) -> Seq<u8>;

/// Whether reading these input bytes as text rows runs to the end of input
/// without a diagnostic (that is, no field fails UTF-8 validation). Like the
/// rows themselves, this is a function of the input and the delimiter.
pub uninterp spec fn text_rows_clean(input: Seq<u8>, delimiter: u8) -> bool;

/// A source of text rows over in-memory input.
#[verifier::external_body]
pub struct TextRowReader {
    inner: csv::Reader<std::io::Cursor<Vec<u8>>>,
}

/// The rows this reader has yet to yield.
pub uninterp spec fn text_rows_left(r: TextRowReader) -> Seq<Seq<Seq<char>>>;

/// Whether every remaining read of this reader will succeed.
pub uninterp spec fn text_reader_clean(r: TextRowReader) -> bool;

/// A source of byte rows over in-memory input.
#[verifier::external_body]
pub struct ByteRowReader {
    inner: csv::Reader<std::io::Cursor<Vec<u8>>>,
}

/// The rows this reader has yet to yield.
pub uninterp spec fn byte_rows_left(r: ByteRowReader) -> Seq<Seq<Seq<u8>>>;

/// A sink of text rows backed by an in-memory buffer.
#[verifier::external_body]
pub struct TextRowWriter {
    inner: csv::Writer<Vec<u8>>,
}

/// The rows this writer has accepted so far.
pub uninterp spec fn text_rows_written(w: TextRowWriter) -> Seq<Seq<Seq<char>>>;

/// The delimiter this writer was built with.
pub uninterp spec fn text_writer_delimiter(w: TextRowWriter) -> u8;

/// A sink of byte rows backed by an in-memory buffer.
#[verifier::external_body]
pub struct ByteRowWriter {
    inner: csv::Writer<Vec<u8>>,
}

/// The rows this writer has accepted so far.
pub uninterp spec fn byte_rows_written(w: ByteRowWriter) -> Seq<Seq<Seq<u8>>>;

/// The delimiter this writer was built with.
pub uninterp spec fn byte_writer_delimiter(w: ByteRowWriter) -> u8;

/// Relies on csv::ReaderBuilder: a reader over the given bytes, framed by the
/// given single-byte delimiter, flexible field counts, no header handling of
/// its own.
#[verifier::external_body]
pub fn text_reader_new(input: Vec<u8>, delimiter: u8) -> (r: TextRowReader)
    ensures
        text_rows_left(r) == text_rows_of(input@, delimiter),
        text_reader_clean(r) == text_rows_clean(input@, delimiter),
{
    TextRowReader {
        inner: csv::ReaderBuilder::new().delimiter(delimiter).has_headers(false).flexible(
            true,
        ).from_reader(std::io::Cursor::new(input)),
    }
}

/// Relies on csv::Reader::read_record: yields the next row, `false` at end of
/// input, or a diagnostic (here, only for a field that is not valid UTF-8).
/// A clean reader never reports one, and a successful read leaves
/// cleanliness as it was: the failure, if any, is still ahead.
#[verifier::external_body]
pub fn text_read_row(r: &mut TextRowReader) -> (out: Result<Option<Vec<String>>, String>)
    ensures
        match out {
            Ok(Some(row)) => text_rows_left(*old(r)).len() > 0 && row.deep_view() == text_rows_left(
                *old(r),
            )[0] && text_rows_left(*final(r)) == text_rows_left(*old(r)).drop_first(),
            Ok(None) => text_rows_left(*old(r)).len() == 0 && text_rows_left(*final(r))
                == text_rows_left(*old(r)),
            Err(_) => !text_reader_clean(*old(r)),
        },
        out matches Ok(_) ==> text_reader_clean(*final(r)) == text_reader_clean(*old(r)),
{
    let mut rec = csv::StringRecord::new();
    match r.inner.read_record(&mut rec) {
        Ok(true) => Ok(Some(rec.iter().map(|f| f.to_string()).collect())),
        Ok(false) => Ok(None),
        Err(e) => Err(e.to_string()),
    }
}

/// Relies on csv::Reader::read_byte_record: yields the next row, or `false`
/// at end of input. No Unicode validation happens on this path, flexible
/// framing rules out length errors, and the in-memory source cannot fail, so
/// a byte read always succeeds.
#[verifier::external_body]
pub fn byte_read_row(r: &mut ByteRowReader) -> (out: Result<Option<Vec<Vec<u8>>>, String>)
    ensures
        out matches Ok(_),
        match out {
            Ok(Some(row)) => byte_rows_left(*old(r)).len() > 0 && row.deep_view() == byte_rows_left(
                *old(r),
            )[0] && byte_rows_left(*final(r)) == byte_rows_left(*old(r)).drop_first(),
            Ok(None) => byte_rows_left(*old(r)).len() == 0 && byte_rows_left(*final(r))
                == byte_rows_left(*old(r)),
            Err(_) => true,
        },
{
    let mut rec = csv::ByteRecord::new();
    match r.inner.read_byte_record(&mut rec) {
        Ok(true) => Ok(Some(rec.iter().map(|f| f.to_vec()).collect())),
        Ok(false) => Ok(None),
        Err(e) => Err(e.to_string()),
    }
}

/// Relies on csv::ReaderBuilder: the byte-mode counterpart of
/// `text_reader_new`.
#[verifier::external_body]
pub fn byte_reader_new(input: Vec<u8>, delimiter: u8) -> (r: ByteRowReader)
    ensures
        byte_rows_left(r) == byte_rows_of(input@, delimiter),
{
    ByteRowReader {
        inner: csv::ReaderBuilder::new().delimiter(delimiter).has_headers(false).flexible(
            true,
        ).from_reader(std::io::Cursor::new(input)),
    }
}

/// Relies on csv::WriterBuilder: a writer into an in-memory buffer, framed by
/// the given single-byte delimiter, flexible field counts.
#[verifier::external_body]
pub fn text_writer_new(delimiter: u8) -> (w: TextRowWriter)
    ensures
        text_rows_written(w) == Seq::<Seq<Seq<char>>>::empty(),
        text_writer_delimiter(w) == delimiter,
{
    TextRowWriter {
        inner: csv::WriterBuilder::new().delimiter(delimiter).flexible(true).from_writer(
            Vec::new(),
        ),
    }
}

/// Relies on csv::Writer::write_record: appends one row to the output. With
/// flexible field counts and an in-memory sink the writer has no error path,
/// so the write always succeeds.
#[verifier::external_body]
pub fn text_write_row(w: &mut TextRowWriter, row: &Vec<String>) -> (out: Result<(), String>)
    ensures
        out matches Ok(_),
        text_writer_delimiter(*final(w)) == text_writer_delimiter(*old(w)),
        text_rows_written(*final(w)) == text_rows_written(*old(w)).push(row.deep_view()),
{
    w.inner.write_record(row).map_err(|e| e.to_string())
}

/// Relies on csv::Writer::into_inner: flushes and hands back the bytes the
/// accepted rows serialize to. Flushing into the in-memory buffer cannot
/// fail.
#[verifier::external_body]
pub fn text_writer_into_bytes(w: TextRowWriter) -> (out: Result<Vec<u8>, String>)
    ensures
        out matches Ok(_),
        out matches Ok(b) ==> b@ == text_csv_of(text_rows_written(w), text_writer_delimiter(w)),
{
    w.inner.into_inner().map_err(|e| e.to_string())
}

/// Relies on csv::WriterBuilder: the byte-mode counterpart of
/// `text_writer_new`.
#[verifier::external_body]
pub fn byte_writer_new(delimiter: u8) -> (w: ByteRowWriter)
    ensures
        byte_rows_written(w) == Seq::<Seq<Seq<u8>>>::empty(),
        byte_writer_delimiter(w) == delimiter,
{
    ByteRowWriter {
        inner: csv::WriterBuilder::new().delimiter(delimiter).flexible(true).from_writer(
            Vec::new(),
        ),
    }
}

/// Relies on csv::Writer::write_record: appends one row to the output. As
/// for the text writer, there is no error path, so the write always
/// succeeds.
#[verifier::external_body]
pub fn byte_write_row(w: &mut ByteRowWriter, row: &Vec<Vec<u8>>) -> (out: Result<(), String>)
    ensures
        out matches Ok(_),
        byte_writer_delimiter(*final(w)) == byte_writer_delimiter(*old(w)),
        byte_rows_written(*final(w)) == byte_rows_written(*old(w)).push(row.deep_view()),
{
    w.inner.write_record(row).map_err(|e| e.to_string())
}

/// Relies on csv::Writer::into_inner: flushes and hands back the bytes the
/// accepted rows serialize to. Flushing into the in-memory buffer cannot
/// fail.
#[verifier::external_body]
pub fn byte_writer_into_bytes(w: ByteRowWriter) -> (out: Result<Vec<u8>, String>)
    ensures
        out matches Ok(_),
        out matches Ok(b) ==> b@ == byte_csv_of(byte_rows_written(w), byte_writer_delimiter(w)),
{
    w.inner.into_inner().map_err(|e| e.to_string())
}

} // verus!
