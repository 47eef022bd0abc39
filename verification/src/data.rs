//! What a type needs to be read from an export: the columns to ask for, and
//! the way back from the bytes of a value.

use crate::buffer::be_i32;
use crate::error::IoError;
use crate::error::IoErrorKind;
use crate::export::i32_bytes;
use crate::export::lemma_integers_read_back;
use crate::identifier::Names;
use postgres_types::Type;
use vstd::prelude::*;

verus! {

/// `postgres_types::Type`: the type that the database declares for a value.
#[verifier::external_type_specification]
#[verifier::external_body]
pub struct ExType(Type);

/// Whether a declared type is the type of whole rows, `Type::RECORD`.
pub uninterp spec fn is_record(type_: Type) -> bool;

/// `Type::RECORD`: the type that the database declares for a whole row.
#[verifier::external_body]
pub(crate) fn record_type() -> (type_: Type)
    ensures
        is_record(type_),
{
    Type::RECORD
}

/// Why the bytes of a value could not be read as the type asked for.
#[derive(Debug)]
pub enum DecodeError {
    /// The bytes ended early.
    Io(IoError),
    /// Any other mismatch, as text.
    Message(String),
}

/// What a `DecodeError` stands for.
pub enum DecodeErrorView {
    Io(IoErrorKind, Seq<char>),
    Message(Seq<char>),
}

impl View for DecodeError {
    type V = DecodeErrorView;

    open spec fn view(&self) -> DecodeErrorView {
        match self {
            DecodeError::Io(error) => DecodeErrorView::Io(error.spec_kind(), error.message()),
            DecodeError::Message(message) => DecodeErrorView::Message(message@),
        }
    }
}

impl DecodeErrorView {
    /// The text that the error renders as.
    pub open spec fn text(self) -> Seq<char> {
        match self {
            DecodeErrorView::Io(_, message) => message,
            DecodeErrorView::Message(message) => message,
        }
    }
}

impl DecodeError {
    /// The error as text.
    pub fn to_string(&self) -> (text: String)
        ensures
            text@ == self@.text(),
    {
        match self {
            DecodeError::Io(error) => error.to_string(),
            DecodeError::Message(message) => message.clone(),
        }
    }
}

/// The error for a buffer that ends inside a length.
pub open spec fn failed_to_fill() -> (IoErrorKind, Seq<char>) {
    (IoErrorKind::UnexpectedEof, "failed to fill whole buffer"@)
}

/// Reads a big-endian signed 32-bit integer from the front of `buf` and
/// moves `buf` past it. A buffer of fewer than four bytes is left as it is.
pub fn read_be_i32(buf: &mut &[u8]) -> (read: Result<i32, IoError>)
    ensures
        match read {
            Ok(num) => {
                &&& old(buf)@.len() >= 4
                &&& num == be_i32(old(buf)@.take(4))
                &&& final(buf)@ == old(buf)@.skip(4)
            },
            Err(error) => {
                &&& old(buf)@.len() < 4
                &&& (error.kind(), error.message()) == failed_to_fill()
                &&& final(buf)@ == old(buf)@
            },
        },
{
    if buf.len() < 4 {
        return Err(IoError::new(IoErrorKind::UnexpectedEof, "failed to fill whole buffer"));
    }
    let (bytes, rest) = buf.split_at(4);
    let b0 = bytes[0];
    let b1 = bytes[1];
    let b2 = bytes[2];
    let b3 = bytes[3];
    let num: i32 = ((b0 as i32) << 24) | ((b1 as i32) << 16) | ((b2 as i32) << 8) | (b3 as i32);
    proof {
        let unsigned: u32 = ((b0 as u32) << 24) | ((b1 as u32) << 16) | ((b2 as u32) << 8) | (
        b3 as u32);
        assert(unsigned == b0 * 0x100_0000 + b1 * 0x1_0000 + b2 * 0x100 + b3) by (bit_vector)
            requires
                unsigned == ((b0 as u32) << 24) | ((b1 as u32) << 16) | ((b2 as u32) << 8) | (
                b3 as u32),
        ;
        assert(num == (if unsigned >= 0x8000_0000u32 {
            unsigned - 0x1_0000_0000
        } else {
            unsigned as int
        })) by (bit_vector)
            requires
                num == ((b0 as i32) << 24) | ((b1 as i32) << 16) | ((b2 as i32) << 8) | (
                b3 as i32),
                unsigned == ((b0 as u32) << 24) | ((b1 as u32) << 16) | ((b2 as u32) << 8) | (
                b3 as u32),
        ;
        assert(old(buf)@.take(4) =~= bytes@);
    }
    *buf = rest;
    Ok(num)
}

/// What the bytes of a value hold, where there is a value.
pub open spec fn bytes_of(buf: Option<&[u8]>) -> Option<Seq<u8>> {
    match buf {
        Some(bytes) => Some(bytes@),
        None => None,
    }
}

/// The result of a decoding, with its error taken as what it stands for.
pub open spec fn decoding<T>(decoded: Result<T, DecodeError>) -> Result<T, DecodeErrorView> {
    match decoded {
        Ok(value) => Ok(value),
        Err(error) => Err(error@),
    }
}

/// A type that rows, or fields of rows, can be read as.
///
/// The type says which columns it is made of, and how a value of it is
/// read back from the bytes that the database sends for those columns. A
/// plain type is made of the one column that the path names; a record is
/// made of the columns of its fields, each at the path extended by the
/// field's name, separated by commas.
///
/// What a type promises of its two operations it states in `renders` and
/// `decodes`; a type that states nothing promises nothing.
pub trait PostgresData: Sized {
    /// Whether `columns` is the text of the column expressions for a value
    /// at the path `name`, as SQL.
    open spec fn renders(name: Option<&Names<'_>>, columns: Seq<char>) -> bool {
        true
    }

    /// Whether `decoded` is a reading of `buf` as a value of the declared
    /// type `type_`, where `buf` is `None` for the null value.
    open spec fn decodes(
        type_: Type,
        buf: Option<Seq<u8>>,
        decoded: Result<Self, DecodeErrorView>,
    ) -> bool {
        true
    }

    /// Writes the column expressions for a value at the path `name`.
    fn query(name: Option<&Names<'_>>) -> (text: String)
        ensures
            Self::renders(name, text@),
    ;

    /// Reads a value from the bytes that the database sent for it.
    fn decode(type_: &Type, buf: Option<&[u8]>) -> (decoded: Result<Self, DecodeError>)
        ensures
            Self::decodes(*type_, bytes_of(buf), decoding(decoded)),
    ;
}

/// A boxed value is made of the columns of the value, and is read as the
/// value is.
impl<T: PostgresData> PostgresData for Box<T> {
    open spec fn renders(name: Option<&Names<'_>>, columns: Seq<char>) -> bool {
        T::renders(name, columns)
    }

    open spec fn decodes(
        type_: Type,
        buf: Option<Seq<u8>>,
        decoded: Result<Self, DecodeErrorView>,
    ) -> bool {
        T::decodes(
            type_,
            buf,
            match decoded {
                Ok(value) => Ok(*value),
                Err(error) => Err(error),
            },
        )
    }

    fn query(name: Option<&Names<'_>>) -> (text: String) {
        T::query(name)
    }

    fn decode(type_: &Type, buf: Option<&[u8]>) -> (decoded: Result<Self, DecodeError>) {
        match T::decode(type_, buf) {
            Ok(value) => Ok(Box::new(value)),
            Err(error) => Err(error),
        }
    }
}

/// The error for a value that is announced longer than its buffer.
pub open spec fn invalid_buffer_size() -> DecodeErrorView {
    DecodeErrorView::Message("invalid buffer size"@)
}

/// The value at the front of a buffer that holds the fields of a record.
pub enum Prefixed {
    /// The buffer ends inside the length.
    NoLength,
    /// The length is beyond the end of the buffer.
    TooLong,
    /// A value, or `None` for a negative length, and what follows it.
    Value(Option<Seq<u8>>, Seq<u8>),
}

/// Splits the value at the front of a buffer from what follows it: the
/// buffer opens with the length of the value as a big-endian signed 32-bit
/// integer, followed by that many bytes of value; a negative length stands
/// for the null value, which has no bytes.
pub open spec fn prefixed(bytes: Seq<u8>) -> Prefixed {
    if bytes.len() < 4 {
        Prefixed::NoLength
    } else if be_i32(bytes.take(4)) < 0 {
        Prefixed::Value(None, bytes.skip(4))
    } else if be_i32(bytes.take(4)) > bytes.len() - 4 {
        Prefixed::TooLong
    } else {
        Prefixed::Value(
            Some(bytes.subrange(4, 4 + be_i32(bytes.take(4)))),
            bytes.skip(4 + be_i32(bytes.take(4))),
        )
    }
}

/// Reads the value at the front of `buf` as a `T` and moves `buf` past it.
///
/// A buffer that ends inside the length is left as it is; a buffer that is
/// shorter than the length announces is left behind the length.
pub fn read_value<T>(type_: &Type, buf: &mut &[u8]) -> (read: Result<T, DecodeError>) where
    T: PostgresData,

    ensures
        match prefixed(old(buf)@) {
            Prefixed::NoLength => {
                &&& read matches Err(error)
                &&& error@ == DecodeErrorView::Io(failed_to_fill().0, failed_to_fill().1)
                &&& final(buf)@ == old(buf)@
            },
            Prefixed::TooLong => {
                &&& read matches Err(error)
                &&& error@ == invalid_buffer_size()
                &&& final(buf)@ == old(buf)@.skip(4)
            },
            Prefixed::Value(value, rest) => {
                &&& T::decodes(*type_, value, decoding(read))
                &&& final(buf)@ == rest
            },
        },
{
    let len = match read_be_i32(buf) {
        Ok(len) => len,
        Err(error) => {
            return Err(DecodeError::Io(error));
        },
    };
    let value = if len < 0 {
        None
    } else {
        let len = len as usize;
        if len > buf.len() {
            return Err(DecodeError::Message("invalid buffer size".to_owned()));
        }
        let (head, tail) = buf.split_at(len);
        *buf = tail;
        proof {
            assert(head@ =~= old(buf)@.subrange(4, 4 + len));
            assert(tail@ =~= old(buf)@.skip(4 + len));
        }
        Some(head)
    };
    T::decode(type_, value)
}

/// The bytes of a value in front of others in a record: its length as a
/// big-endian signed 32-bit integer and then its bytes, or a length of
/// `-1` alone for the null value.
pub open spec fn value_bytes(value: Option<Seq<u8>>) -> Seq<u8> {
    match value {
        Some(bytes) => i32_bytes(bytes.len() as int) + bytes,
        None => i32_bytes(-1),
    }
}

/// A value that is written in front of a buffer is split off as it was
/// written, and the buffer is left behind it.
pub proof fn lemma_value_reads_back(value: Option<Seq<u8>>, rest: Seq<u8>)
    requires
        value matches Some(bytes) ==> bytes.len() <= i32::MAX,
    ensures
        prefixed(value_bytes(value) + rest) == Prefixed::Value(value, rest),
{
    let buffer = value_bytes(value) + rest;
    match value {
        Some(bytes) => {
            assert(buffer.take(4) =~= i32_bytes(bytes.len() as int));
            lemma_integers_read_back(0, bytes.len() as int);
            assert(buffer.subrange(4, 4 + bytes.len() as int) =~= bytes);
            assert(buffer.skip(4 + bytes.len() as int) =~= rest);
        },
        None => {
            assert(buffer.take(4) =~= i32_bytes(-1));
            assert(buffer.skip(4) =~= rest);
        },
    }
}

/// A boxed value asks for the columns that the value asks for, and every
/// reading of bytes as the value is, boxed, a reading of them as the boxed
/// value.
pub proof fn lemma_box_is_transparent<T: PostgresData>(
    name: Option<&Names<'_>>,
    columns: Seq<char>,
    type_: Type,
    buf: Option<Seq<u8>>,
    decoded: Result<T, DecodeErrorView>,
)
    ensures
        T::renders(name, columns) <==> <Box<T> as PostgresData>::renders(name, columns),
        T::decodes(type_, buf, decoded) <==> <Box<T> as PostgresData>::decodes(
            type_,
            buf,
            match decoded {
                Ok(value) => Ok(Box::new(value)),
                Err(error) => Err(error),
            },
        ),
{
}

} // verus!
