//! An export as a whole: the run of a decoder over the chunks of a channel,
//! the shape of a well-formed export, and what the decoder makes of it.

use crate::binary_copy::behind_header;
use crate::binary_copy::connection_closed;
use crate::binary_copy::frame;
use crate::binary_copy::header_after;
use crate::binary_copy::invalid_magic;
use crate::binary_copy::magic;
use crate::binary_copy::record;
use crate::binary_copy::BinaryCopyOutStream;
use crate::binary_copy::Frame;
use crate::binary_copy::HEADER_LEN;
use crate::binary_copy::MAGIC_LEN;
use crate::buffer::be_i16;
use crate::buffer::be_i32;
use crate::buffer::contents;
use crate::buffer::share;
use crate::error::ErrorView;
use crate::error::IoErrorKind;
use crate::error::PostgresError;
use bytes::Bytes;
use vstd::prelude::*;

verus! {

/// A decoded field or a failure, over plain values.
pub type Outcome = Result<Option<Seq<u8>>, ErrorView>;

/// The outcome that a decoded field or a failure stands for.
pub open spec fn outcome_of(item: Result<Option<Bytes>, PostgresError>) -> Outcome {
    match item {
        Ok(Some(value)) => Ok(Some(contents(value))),
        Ok(None) => Ok(None),
        Err(error) => Err(error@),
    }
}

/// The outcomes that a list of items stands for.
pub open spec fn outcomes_of(items: Seq<Result<Option<Bytes>, PostgresError>>) -> Seq<Outcome> {
    items.map_values(|item: Result<Option<Bytes>, PostgresError>| outcome_of(item))
}

/// What the chunks of a channel hold.
pub open spec fn chunks_of(chunks: Seq<Bytes>) -> Seq<Seq<u8>> {
    chunks.map_values(|chunk: Bytes| contents(chunk))
}

/// `first`, and then the outcomes of `rest` if there are any.
pub open spec fn followed_by(first: Seq<Outcome>, rest: Option<Seq<Outcome>>) -> Option<
    Seq<Outcome>,
> {
    match rest {
        Some(outcomes) => Some(first + outcomes),
        None => None,
    }
}

/// The outcomes of a decoder's run over the chunks that a channel delivers
/// before it ends.
///
/// The run yields the fields in order. It ends without more at the trailer,
/// and with an error at the first chunk that fails or when the chunks end
/// before the trailer. It is `None` when a record has a field count other
/// than one, which no decoder takes.
pub open spec fn run(header: bool, chunks: Seq<Seq<u8>>) -> Option<Seq<Outcome>>
    decreases chunks.len(),
{
    if chunks.len() == 0 {
        Some(seq![Err(connection_closed())])
    } else if !frame(header, chunks[0]).single_valued() {
        None
    } else {
        match frame(header, chunks[0]).step() {
            None => Some(Seq::empty()),
            Some(Err(error)) => Some(seq![Err(error)]),
            Some(Ok(value)) => followed_by(
                seq![Ok(value)],
                run(header_after(header, chunks[0]), chunks.skip(1)),
            ),
        }
    }
}

/// Decodes an export from the chunks that its channel delivered before it
/// ended: the fields in order, closed by an error unless the trailer was
/// reached. Gives `None` for a record with a field count other than one.
pub fn drain(chunks: &[Bytes]) -> (items: Option<Vec<Result<Option<Bytes>, PostgresError>>>)
    ensures
        match run(false, chunks_of(chunks@)) {
            Some(outcomes) => items matches Some(list) && outcomes_of(list@) == outcomes,
            None => items is None,
        },
{
    let ghost all = chunks_of(chunks@);
    let mut stream = BinaryCopyOutStream::new();
    let mut items: Vec<Result<Option<Bytes>, PostgresError>> = Vec::new();
    let mut next: usize = 0;
    assert(all.skip(0) =~= all);
    assert(outcomes_of(items@) =~= Seq::<Outcome>::empty());
    assert(Seq::<Outcome>::empty() + run(false, all)->0 =~= run(false, all)->0);
    while next < chunks.len()
        invariant
            next <= chunks.len(),
            all == chunks_of(chunks@),
            !stream.finished(),
            run(false, all) == followed_by(
                outcomes_of(items@),
                run(stream.header_consumed(), all.skip(next as int)),
            ),
        decreases chunks.len() - next,
    {
        let ghost header = stream.header_consumed();
        let ghost rest = all.skip(next as int);
        let ghost done = outcomes_of(items@);
        assert(rest[0] == contents(chunks[next as int]));
        if !stream.check(&chunks[next]) {
            return None;
        }
        let item = stream.poll_next(Some(Ok(share(&chunks[next]))));
        match item {
            None => {
                proof {
                    assert(done + Seq::<Outcome>::empty() =~= done);
                }
                return Some(items);
            },
            Some(Err(error)) => {
                items.push(Err(error));
                proof {
                    assert(outcomes_of(items@) =~= done + seq![Err::<Option<Seq<u8>>, ErrorView>(
                        error@,
                    )]);
                }
                return Some(items);
            },
            Some(Ok(value)) => {
                items.push(Ok(value));
                next = next + 1;
                proof {
                    let outcome = outcome_of(Ok(value));
                    assert(outcomes_of(items@) =~= done + seq![outcome]);
                    assert(rest.skip(1) =~= all.skip(next as int));
                    let tail = run(stream.header_consumed(), all.skip(next as int));
                    if tail is Some {
                        assert(done + (seq![outcome] + tail->0) =~= (done + seq![outcome])
                            + tail->0);
                    }
                }
            },
        }
    }
    let ghost done = outcomes_of(items@);
    match stream.poll_next(None) {
        Some(Err(error)) => {
            items.push(Err(error));
            proof {
                assert(all.skip(next as int).len() == 0);
                assert(outcomes_of(items@) =~= done + seq![Err::<Option<Seq<u8>>, ErrorView>(
                    error@,
                )]);
            }
        },
        _ => {},
    }
    Some(items)
}

/// The two bytes that spell a signed 16-bit integer in network order.
pub open spec fn i16_bytes(value: int) -> Seq<u8>
    recommends
        -0x8000 <= value < 0x8000,
{
    let unsigned = if value < 0 {
        value + 0x1_0000
    } else {
        value
    };
    seq![(unsigned / 0x100) as u8, (unsigned % 0x100) as u8]
}

/// The four bytes that spell a signed 32-bit integer in network order.
pub open spec fn i32_bytes(value: int) -> Seq<u8>
    recommends
        -0x8000_0000 <= value < 0x8000_0000,
{
    let unsigned = if value < 0 {
        value + 0x1_0000_0000
    } else {
        value
    };
    seq![
        (unsigned / 0x100_0000) as u8,
        (unsigned / 0x1_0000 % 0x100) as u8,
        (unsigned / 0x100 % 0x100) as u8,
        (unsigned % 0x100) as u8,
    ]
}

/// A header without flags and without extension.
pub open spec fn header_bytes() -> Seq<u8> {
    magic() + i32_bytes(0) + i32_bytes(0)
}

/// The record of one field: a count of one, the length and the bytes of the
/// value, or a length of `-1` alone for the null value.
pub open spec fn row_bytes(value: Option<Seq<u8>>) -> Seq<u8> {
    match value {
        Some(bytes) => i16_bytes(1) + i32_bytes(bytes.len() as int) + bytes,
        None => i16_bytes(1) + i32_bytes(-1),
    }
}

/// The record that ends an export.
pub open spec fn trailer_bytes() -> Seq<u8> {
    i16_bytes(-1)
}

/// Whether every value is short enough for its length to be written down.
pub open spec fn encodable(values: Seq<Option<Seq<u8>>>) -> bool {
    forall|i: int|
        0 <= i < values.len() ==> (#[trigger] values[i] matches Some(bytes) ==> bytes.len()
            <= i32::MAX)
}

/// One record for each value, in order.
pub open spec fn rows(values: Seq<Option<Seq<u8>>>) -> Seq<Seq<u8>> {
    values.map_values(|value: Option<Seq<u8>>| row_bytes(value))
}

/// The chunks of a complete export of `values`: one record to a chunk, the
/// header in front of the first, the trailer last.
pub open spec fn export(values: Seq<Option<Seq<u8>>>) -> Seq<Seq<u8>> {
    let records = rows(values).push(trailer_bytes());
    records.update(0, header_bytes() + records[0])
}

/// The outcomes of an export that delivers `values` and no failure.
pub open spec fn delivered(values: Seq<Option<Seq<u8>>>) -> Seq<Outcome> {
    values.map_values(|value: Option<Seq<u8>>| Ok::<Option<Seq<u8>>, ErrorView>(value))
}

/// Reading back a written integer gives the integer.
pub proof fn lemma_integers_read_back(short: int, long: int)
    requires
        -0x8000 <= short < 0x8000,
        -0x8000_0000 <= long < 0x8000_0000,
    ensures
        be_i16(i16_bytes(short)) == short,
        be_i32(i32_bytes(long)) == long,
{
}

/// A chunk of at least the length of a header that does not open with the
/// signature is refused as malformed, and the header stays unconsumed.
pub proof fn lemma_signature_is_required(bytes: Seq<u8>)
    requires
        bytes.len() >= HEADER_LEN,
        bytes.take(MAGIC_LEN as int) != magic(),
    ensures
        frame(false, bytes) == Frame::BadSignature,
        frame(false, bytes).step() == Some(Err::<Option<Seq<u8>>, ErrorView>(invalid_magic())),
        !header_after(false, bytes),
        run(false, seq![bytes]) == Some(seq![Err::<Option<Seq<u8>>, ErrorView>(invalid_magic())]),
{
}

/// Behind a header without flags and extension the chunk goes on with
/// whatever follows it.
pub proof fn lemma_header_is_consumed(rest: Seq<u8>)
    ensures
        behind_header(header_bytes() + rest) == Ok::<Seq<u8>, Frame>(rest),
        frame(false, header_bytes() + rest) == record(rest),
        header_after(false, header_bytes() + rest),
{
    let bytes = header_bytes() + rest;
    assert(bytes.take(MAGIC_LEN as int) =~= magic());
    assert(bytes.subrange(11, 15) =~= i32_bytes(0));
    assert(bytes.subrange(15, 19) =~= i32_bytes(0));
    assert(0i32 & 0x1_0000i32 == 0i32) by (bit_vector);
    assert(bytes.skip(19) =~= rest);
}

/// The record of a value reads back as the value, whatever follows it in
/// the chunk; the trailer reads back as the trailer.
pub proof fn lemma_record_reads_back(value: Option<Seq<u8>>, rest: Seq<u8>)
    requires
        value matches Some(bytes) ==> bytes.len() <= i32::MAX,
    ensures
        record(row_bytes(value) + rest) == Frame::Value(value),
        record(trailer_bytes() + rest) == Frame::Trailer,
{
    let bytes = row_bytes(value) + rest;
    assert(bytes.take(2) =~= i16_bytes(1));
    assert((trailer_bytes() + rest).take(2) =~= i16_bytes(-1));
    match value {
        Some(field) => {
            assert(bytes.subrange(2, 6) =~= i32_bytes(field.len() as int));
            lemma_integers_read_back(1, field.len() as int);
            assert(bytes.subrange(6, 6 + field.len() as int) =~= field);
        },
        None => {
            assert(bytes.subrange(2, 6) =~= i32_bytes(-1));
        },
    }
}

/// The null value and the empty value are told apart: a length of `-1`
/// reads as null and takes no bytes of value, a length of zero reads as a
/// value of no bytes.
pub proof fn lemma_null_is_not_empty(rest: Seq<u8>)
    ensures
        row_bytes(None).len() == 6,
        record(row_bytes(None) + rest) == Frame::Value(None),
        record(row_bytes(Some(Seq::empty())) + rest) == Frame::Value(Some(Seq::empty())),
        Frame::Value(None) != Frame::Value(Some(Seq::<u8>::empty())),
{
    lemma_record_reads_back(None, rest);
    lemma_record_reads_back(Some(Seq::empty()), rest);
}

/// A record that announces a value longer than what is left of its chunk
/// is refused as truncated.
pub proof fn lemma_short_value_is_truncated(bytes: Seq<u8>)
    requires
        bytes.len() >= 6,
        be_i16(bytes.take(2)) == 1,
        be_i32(bytes.subrange(2, 6)) > bytes.len() - 6,
    ensures
        record(bytes) == Frame::Truncated,
        record(bytes).step() matches Some(Err(ErrorView::Io(kind, _)))
            && kind == IoErrorKind::UnexpectedEof,
{
}

/// Cut short anywhere, the record of a value is refused as truncated, with
/// the header in front of it or without.
pub proof fn lemma_cut_record_is_truncated(value: Option<Seq<u8>>, len: int)
    requires
        value matches Some(bytes) ==> bytes.len() <= i32::MAX,
        0 <= len < row_bytes(value).len(),
    ensures
        record(row_bytes(value).take(len)) == Frame::Truncated,
        frame(false, (header_bytes() + row_bytes(value)).take(HEADER_LEN + len))
            == Frame::Truncated,
{
    let row = row_bytes(value);
    let cut = row.take(len);
    if len >= 2 {
        assert(cut.take(2) =~= i16_bytes(1));
    }
    if len >= 6 {
        match value {
            Some(field) => {
                assert(cut.subrange(2, 6) =~= i32_bytes(field.len() as int));
                lemma_integers_read_back(1, field.len() as int);
            },
            None => {},
        }
    }
    assert((header_bytes() + row).take(HEADER_LEN + len) =~= header_bytes() + cut);
    lemma_header_is_consumed(cut);
}

/// Cut short anywhere, a header is refused as truncated.
pub proof fn lemma_cut_header_is_truncated(len: int)
    requires
        0 <= len < HEADER_LEN,
    ensures
        frame(false, header_bytes().take(len)) == Frame::Truncated,
{
}

/// A decoder behind the header reads the records of `values` back as
/// `values`. After the trailer it is done; without it, the end of the
/// channel is an error.
pub proof fn lemma_rows_read_back(values: Seq<Option<Seq<u8>>>)
    requires
        encodable(values),
    ensures
        run(true, rows(values).push(trailer_bytes())) == Some(delivered(values)),
        run(true, rows(values)) == Some(
            delivered(values).push(Err::<Option<Seq<u8>>, ErrorView>(connection_closed())),
        ),
    decreases values.len(),
{
    let closed = Err::<Option<Seq<u8>>, ErrorView>(connection_closed());
    let complete = rows(values).push(trailer_bytes());
    if values.len() == 0 {
        assert(complete[0] + Seq::<u8>::empty() =~= trailer_bytes());
        lemma_record_reads_back(None, Seq::empty());
        assert(delivered(values) =~= Seq::<Outcome>::empty());
        assert(delivered(values).push(closed) =~= seq![closed]);
    } else {
        let later = values.skip(1);
        assert(encodable(later)) by {
            assert forall|i: int| 0 <= i < later.len() implies (#[trigger] later[i] matches Some(
                bytes,
            ) ==> bytes.len() <= i32::MAX) by {
                assert(later[i] == values[i + 1]);
            }
        }
        lemma_rows_read_back(later);
        assert(values[0] matches Some(bytes) ==> bytes.len() <= i32::MAX);
        lemma_record_reads_back(values[0], Seq::empty());
        assert(row_bytes(values[0]) + Seq::<u8>::empty() =~= row_bytes(values[0]));
        assert(complete[0] == row_bytes(values[0]));
        assert(rows(values)[0] == row_bytes(values[0]));
        assert(complete.skip(1) =~= rows(later).push(trailer_bytes()));
        assert(rows(values).skip(1) =~= rows(later));
        assert(seq![Ok::<Option<Seq<u8>>, ErrorView>(values[0])] + delivered(later) =~= delivered(
            values,
        ));
        assert(seq![Ok::<Option<Seq<u8>>, ErrorView>(values[0])] + delivered(later).push(closed)
            =~= delivered(values).push(closed));
    }
}

/// A complete export of `values` decodes to `values`, one field for each,
/// and then ends. The same export without its last chunk, the trailer,
/// decodes to `values` followed by the error for a channel that closed.
pub proof fn lemma_export_reads_back(values: Seq<Option<Seq<u8>>>)
    requires
        encodable(values),
    ensures
        run(false, export(values)) == Some(delivered(values)),
        delivered(values).len() == values.len(),
        run(false, export(values).drop_last()) == Some(
            delivered(values).push(Err::<Option<Seq<u8>>, ErrorView>(connection_closed())),
        ),
{
    let closed = Err::<Option<Seq<u8>>, ErrorView>(connection_closed());
    let records = rows(values).push(trailer_bytes());
    let chunks = export(values);
    lemma_header_is_consumed(records[0]);
    lemma_rows_read_back(values);
    assert(chunks[0] == header_bytes() + records[0]);
    assert(chunks.skip(1) =~= records.skip(1));
    if values.len() == 0 {
        assert(chunks.drop_last() =~= Seq::<Seq<u8>>::empty());
        assert(delivered(values).push(closed) =~= seq![closed]);
    } else {
        let cut = chunks.drop_last();
        assert(cut[0] == chunks[0]);
        assert(cut.skip(1) =~= rows(values).skip(1));
        assert(records[0] == rows(values)[0]);
    }
}

} // verus!
