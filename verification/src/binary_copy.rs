//! The decoder for the binary bulk-export format.
//!
//! An export arrives as a sequence of chunks. The first chunk opens with a
//! header: an 11-byte signature, a 4-byte flags word and a 4-byte length
//! followed by that many bytes of header extension. After the header, and in
//! every later chunk, stands one record: a 2-byte field count and then, for a
//! count of one, a 4-byte length and the value. A count of `-1` is the
//! trailer that ends the export; a length of `-1` is the null value.

use crate::buffer::advance;
use crate::buffer::as_slice;
use crate::buffer::be_i16;
use crate::buffer::be_i32;
use crate::buffer::be_u32;
use crate::buffer::contents;
use crate::buffer::get_i16;
use crate::buffer::get_i32;
use crate::buffer::get_u32;
use crate::buffer::remaining;
use crate::buffer::share;
use crate::buffer::slice;
use crate::error::ErrorView;
use crate::error::IoError;
use crate::error::IoErrorKind;
use crate::error::report;
use crate::error::PostgresError;
use bytes::Bytes;
use vstd::pervasive::unreached;
use vstd::prelude::*;

verus! {

/// The length of the signature that opens an export.
pub const MAGIC_LEN: usize = 11;

/// The length of a header without extension: signature, flags, extension length.
pub const HEADER_LEN: usize = 19;

/// The signature that opens an export: `PGCOPY\n\xff\r\n\0`.
pub open spec fn magic() -> Seq<u8> {
    seq![0x50u8, 0x47u8, 0x43u8, 0x4fu8, 0x50u8, 0x59u8, 0x0au8, 0xffu8, 0x0du8, 0x0au8, 0x00u8]
}

/// Whether a flags word announces rows that carry object identifiers.
pub open spec fn carries_row_ids(flags: i32) -> bool {
    flags & 0x1_0000i32 != 0i32
}

/// What a chunk holds for a decoder.
pub enum Frame {
    /// A field: its bytes, or `None` for the null value.
    Value(Option<Seq<u8>>),
    /// The trailer: the export is complete.
    Trailer,
    /// The chunk ends before the data that it announces.
    Truncated,
    /// The chunk does not open with the signature.
    BadSignature,
    /// The header announces rows that carry object identifiers.
    RowIds,
    /// The record has a field count other than one.
    FieldCount(int),
}

/// What remains of the first chunk behind its header, or the frame that the
/// header fails with.
pub open spec fn behind_header(bytes: Seq<u8>) -> Result<Seq<u8>, Frame> {
    if bytes.len() < HEADER_LEN {
        Err(Frame::Truncated)
    } else if bytes.take(MAGIC_LEN as int) != magic() {
        Err(Frame::BadSignature)
    } else if bytes.len() - HEADER_LEN < be_u32(bytes.subrange(15, 19)) {
        Err(Frame::Truncated)
    } else if carries_row_ids(be_i32(bytes.subrange(11, 15)) as i32) {
        Err(Frame::RowIds)
    } else {
        Ok(bytes.skip(HEADER_LEN + be_u32(bytes.subrange(15, 19))))
    }
}

/// The frame that a record spells.
pub open spec fn record(bytes: Seq<u8>) -> Frame {
    if bytes.len() < 2 {
        Frame::Truncated
    } else if be_i16(bytes.take(2)) == -1 {
        Frame::Trailer
    } else if be_i16(bytes.take(2)) != 1 {
        Frame::FieldCount(be_i16(bytes.take(2)))
    } else if bytes.len() < 6 {
        Frame::Truncated
    } else if be_i32(bytes.subrange(2, 6)) == -1 {
        Frame::Value(None)
    } else if be_i32(bytes.subrange(2, 6)) < 0 || bytes.len() - 6 < be_i32(bytes.subrange(2, 6)) {
        Frame::Truncated
    } else {
        Frame::Value(Some(bytes.subrange(6, 6 + be_i32(bytes.subrange(2, 6)))))
    }
}

/// The frame that a chunk holds for a decoder that has, or has not yet,
/// consumed the header.
pub open spec fn frame(header: bool, bytes: Seq<u8>) -> Frame {
    if header {
        record(bytes)
    } else {
        match behind_header(bytes) {
            Ok(rest) => record(rest),
            Err(failure) => failure,
        }
    }
}

/// Whether the header is consumed once a decoder has seen the chunk.
pub open spec fn header_after(header: bool, bytes: Seq<u8>) -> bool {
    header || behind_header(bytes) is Ok
}

/// The error for a chunk that ends too early.
pub open spec fn unexpected_eof() -> ErrorView {
    ErrorView::Io(
        IoErrorKind::UnexpectedEof,
        "error parsing response from server: unexpected EOF"@,
    )
}

/// The error for a chunk without the signature.
pub open spec fn invalid_magic() -> ErrorView {
    ErrorView::Io(
        IoErrorKind::InvalidData,
        "error parsing response from server: invalid magic value"@,
    )
}

/// The error for an export whose rows carry object identifiers.
pub open spec fn unsupported_row_ids() -> ErrorView {
    ErrorView::Io(
        IoErrorKind::InvalidData,
        "error parsing response from server: rows with object identifiers are not supported"@,
    )
}

/// The error for a channel that ends before the trailer.
pub open spec fn connection_closed() -> ErrorView {
    ErrorView::Io(IoErrorKind::UnexpectedEof, "connection closed"@)
}

/// One step of a decoded export, over plain values: a field, a failure, or
/// `None` at the end of the data.
pub type Step = Option<Result<Option<Seq<u8>>, ErrorView>>;

impl Frame {
    /// Whether the frame keeps to the convention of one value per record.
    pub open spec fn single_valued(self) -> bool {
        !(self is FieldCount)
    }

    /// The step that a decoder yields for the frame.
    pub open spec fn step(self) -> Step
        recommends
            self.single_valued(),
    {
        match self {
            Frame::Value(value) => Some(Ok(value)),
            Frame::Trailer => None,
            Frame::Truncated => Some(Err(unexpected_eof())),
            Frame::BadSignature => Some(Err(invalid_magic())),
            Frame::RowIds => Some(Err(unsupported_row_ids())),
            Frame::FieldCount(_) => arbitrary(),
        }
    }
}

/// An item as the decoder hands it out: a field, a failure, or `None` at the
/// end of the data.
pub type Item = Option<Result<Option<Bytes>, PostgresError>>;

/// The step that an item stands for.
pub open spec fn step_of(item: Item) -> Step {
    match item {
        Some(Ok(Some(value))) => Some(Ok(Some(contents(value)))),
        Some(Ok(None)) => Some(Ok(None)),
        Some(Err(error)) => Some(Err(error@)),
        None => None,
    }
}

/// Whether a chunk holds at least `len` bytes; if not, the error for a chunk
/// that ends too early.
fn check_remaining(chunk: &Bytes, len: usize) -> (checked: Result<(), PostgresError>)
    ensures
        checked is Ok <==> contents(*chunk).len() >= len,
        checked matches Err(error) ==> error@ == unexpected_eof(),
{
    if remaining(chunk) < len {
        Err(
            PostgresError::Io(
                IoError::new(
                    IoErrorKind::UnexpectedEof,
                    "error parsing response from server: unexpected EOF",
                ),
            ),
        )
    } else {
        Ok(())
    }
}

/// Whether a slice opens with the signature.
fn starts_with_magic(bytes: &[u8]) -> (found: bool)
    requires
        bytes@.len() >= MAGIC_LEN,
    ensures
        found == (bytes@.take(MAGIC_LEN as int) == magic()),
{
    let found = bytes[0] == 0x50 && bytes[1] == 0x47 && bytes[2] == 0x43 && bytes[3] == 0x4f
        && bytes[4] == 0x50 && bytes[5] == 0x59 && bytes[6] == 0x0a && bytes[7] == 0xff
        && bytes[8] == 0x0d && bytes[9] == 0x0a && bytes[10] == 0x00;
    proof {
        let head = bytes@.take(MAGIC_LEN as int);
        assert(forall|i: int| 0 <= i < 11 ==> head[i] == bytes@[i]);
        if found {
            assert(head =~= magic());
        } else if head == magic() {
            assert(magic()[0] == 0x50 && magic()[1] == 0x47 && magic()[2] == 0x43);
            assert(magic()[3] == 0x4f && magic()[4] == 0x50 && magic()[5] == 0x59);
            assert(magic()[6] == 0x0a && magic()[7] == 0xff && magic()[8] == 0x0d);
            assert(magic()[9] == 0x0a && magic()[10] == 0x00);
            assert(false);
        }
    }
    found
}

/// Consumes the header from the front of the first chunk.
fn read_header(chunk: &mut Bytes) -> (read: Result<(), PostgresError>)
    ensures
        match behind_header(contents(*old(chunk))) {
            Ok(rest) => read is Ok && contents(*final(chunk)) == rest,
            Err(failure) => {
                &&& failure.single_valued()
                &&& read matches Err(error)
                &&& Some(Err::<Option<Seq<u8>>, ErrorView>(error@)) == failure.step()
            },
        },
{
    let ghost bytes = contents(*chunk);
    match check_remaining(chunk, HEADER_LEN) {
        Err(error) => {
            return Err(error);
        },
        Ok(()) => {},
    }
    if !starts_with_magic(as_slice(chunk)) {
        return Err(
            PostgresError::Io(
                IoError::new(
                    IoErrorKind::InvalidData,
                    "error parsing response from server: invalid magic value",
                ),
            ),
        );
    }
    advance(chunk, MAGIC_LEN);
    let flags = get_i32(chunk);
    let has_oids = (flags & 0x1_0000i32) != 0i32;
    let header_extension = get_u32(chunk) as usize;
    proof {
        assert(bytes.skip(11).take(4) =~= bytes.subrange(11, 15));
        assert(bytes.skip(11).skip(4).take(4) =~= bytes.subrange(15, 19));
        assert(contents(*chunk) =~= bytes.skip(19));
    }
    match check_remaining(chunk, header_extension) {
        Err(error) => {
            return Err(error);
        },
        Ok(()) => {},
    }
    advance(chunk, header_extension);
    proof {
        assert(contents(*chunk) =~= bytes.skip(19 + header_extension));
    }
    if has_oids {
        return Err(
            PostgresError::Io(
                IoError::new(
                    IoErrorKind::InvalidData,
                    "error parsing response from server: rows with object identifiers are not supported",
                ),
            ),
        );
    }
    Ok(())
}

/// Reads one record from the front of a chunk: the item that it yields, or
/// its field count where that is neither one nor the trailer's.
fn read_record(chunk: Bytes) -> (read: Result<Item, i16>)
    ensures
        match record(contents(chunk)) {
            Frame::FieldCount(count) => read == Err::<Item, i16>(count as i16),
            other => read matches Ok(item) && step_of(item) == other.step(),
        },
{
    let ghost bytes = contents(chunk);
    let mut chunk = chunk;
    match check_remaining(&chunk, 2) {
        Err(error) => {
            return Ok(Some(Err(error)));
        },
        Ok(()) => {},
    }
    let count = get_i16(&mut chunk);
    if count == -1 {
        return Ok(None);
    }
    if count != 1 {
        return Err(count);
    }
    proof {
        assert(contents(chunk) =~= bytes.skip(2));
    }
    match check_remaining(&chunk, 4) {
        Err(error) => {
            return Ok(Some(Err(error)));
        },
        Ok(()) => {},
    }
    let len = get_i32(&mut chunk);
    proof {
        assert(bytes.skip(2).take(4) =~= bytes.subrange(2, 6));
        assert(contents(chunk) =~= bytes.skip(6));
    }
    if len == -1 {
        Ok(Some(Ok(None)))
    } else if len < 0 {
        Ok(
            Some(
                Err(
                    PostgresError::Io(
                        IoError::new(
                            IoErrorKind::UnexpectedEof,
                            "error parsing response from server: unexpected EOF",
                        ),
                    ),
                ),
            ),
        )
    } else {
        let len = len as usize;
        match check_remaining(&chunk, len) {
            Err(error) => {
                return Ok(Some(Err(error)));
            },
            Ok(()) => {},
        }
        let value = slice(&chunk, 0, len);
        proof {
            assert(bytes.skip(6).subrange(0, len as int) =~= bytes.subrange(6, 6 + len));
        }
        Ok(Some(Ok(Some(value))))
    }
}

/// Decodes one chunk: whether the header is consumed afterwards, and the
/// item that the chunk yields or the field count that it is refused for.
fn decode_chunk(header: bool, chunk: Bytes) -> (decoded: (bool, Result<Item, i16>))
    ensures
        decoded.0 == header_after(header, contents(chunk)),
        match frame(header, contents(chunk)) {
            Frame::FieldCount(count) => decoded.1 == Err::<Item, i16>(count as i16),
            other => decoded.1 matches Ok(item) && step_of(item) == other.step(),
        },
{
    let mut chunk = chunk;
    if !header {
        match read_header(&mut chunk) {
            Err(error) => {
                return (false, Ok(Some(Err(error))));
            },
            Ok(()) => {},
        }
    }
    (true, read_record(chunk))
}

/// The state of one export's decoder: whether the header is behind it, and
/// whether the trailer is.
///
/// A decoder awaits the header, then streams fields, and is finished once it
/// has seen the trailer. It does not hold the channel: its owner polls the
/// channel and hands each outcome to `poll_next`, which says what the export
/// yields for it. Values are handed out as slices of the chunk that they
/// arrived in.
pub struct BinaryCopyOutStream {
    header: bool,
    finished: bool,
}

impl BinaryCopyOutStream {
    /// A decoder at the start of an export, before the header.
    pub fn new() -> (stream: BinaryCopyOutStream)
        ensures
            !stream.header_consumed(),
            !stream.finished(),
    {
        BinaryCopyOutStream { header: false, finished: false }
    }

    /// Whether the decoder has consumed the header.
    pub closed spec fn header_consumed(&self) -> bool {
        self.header
    }

    /// Whether the decoder has seen the trailer: the export is complete, and
    /// nothing more comes of it.
    pub closed spec fn finished(&self) -> bool {
        self.finished
    }

    /// Tests whether the decoder has seen the trailer.
    pub fn is_finished(&self) -> (finished: bool)
        ensures
            finished == self.finished(),
    {
        self.finished
    }

    /// Whether the decoder can take the chunk: it is finished and takes
    /// whatever comes, or the record in the chunk keeps to one value per
    /// record.
    pub open spec fn admits(&self, bytes: Seq<u8>) -> bool {
        self.finished() || frame(self.header_consumed(), bytes).single_valued()
    }

    /// Tests whether the decoder can take the chunk.
    pub fn check(&self, chunk: &Bytes) -> (admitted: bool)
        ensures
            admitted == self.admits(contents(*chunk)),
    {
        if self.finished {
            return true;
        }
        let (_, decoded) = decode_chunk(self.header, share(chunk));
        decoded.is_ok()
    }

    /// Takes what a poll of the channel returned and gives the next item of
    /// the export.
    ///
    /// A finished decoder gives `None` and stays as it is, whatever was
    /// polled. Before that, a chunk yields the field in it, `None` for the
    /// trailer, which finishes the decoder, or the error for data that is
    /// truncated, lacks the signature or is of an unsupported variant. A
    /// failure that the driver reports is passed on as its text. A channel
    /// that has ended before the trailer yields an error.
    pub fn poll_next(&mut self, polled: Option<Result<Bytes, tokio_postgres::Error>>) -> (item:
        Item)
        requires
            polled matches Some(Ok(chunk)) ==> old(self).admits(contents(chunk)),
        ensures
            old(self).finished() ==> {
                &&& item is None
                &&& final(self).finished()
                &&& final(self).header_consumed() == old(self).header_consumed()
            },
            !old(self).finished() ==> match polled {
                Some(Ok(chunk)) => {
                    &&& final(self).header_consumed() == header_after(
                        old(self).header_consumed(),
                        contents(chunk),
                    )
                    &&& final(self).finished() == (frame(
                        old(self).header_consumed(),
                        contents(chunk),
                    ) is Trailer)
                    &&& step_of(item) == frame(old(self).header_consumed(), contents(chunk)).step()
                },
                Some(Err(error)) => {
                    &&& final(self).header_consumed() == old(self).header_consumed()
                    &&& !final(self).finished()
                    &&& step_of(item) == Some(
                        Err::<Option<Seq<u8>>, ErrorView>(ErrorView::Postgres(report(error))),
                    )
                },
                None => {
                    &&& final(self).header_consumed() == old(self).header_consumed()
                    &&& !final(self).finished()
                    &&& step_of(item) == Some(
                        Err::<Option<Seq<u8>>, ErrorView>(connection_closed()),
                    )
                },
            },
    {
        if self.finished {
            return None;
        }
        let chunk = match polled {
            Some(Ok(chunk)) => chunk,
            Some(Err(error)) => {
                return Some(Err(PostgresError::from(error)));
            },
            None => {
                return Some(
                    Err(
                        PostgresError::Io(
                            IoError::new(IoErrorKind::UnexpectedEof, "connection closed"),
                        ),
                    ),
                );
            },
        };
        let (header, decoded) = decode_chunk(self.header, chunk);
        self.header = header;
        match decoded {
            Ok(item) => {
                if item.is_none() {
                    self.finished = true;
                }
                item
            },
            Err(_) => unreached(),
        }
    }
}

} // verus!
