use amadeus_postgres::data::{read_be_i32, read_value, DecodeError, PostgresData};
use amadeus_postgres::error::IoErrorKind;
use amadeus_postgres::identifier::Names;
use tokio_postgres::types::Type;

#[derive(Clone, Debug, PartialEq)]
struct Int(i32);

impl PostgresData for Int {
    fn query(name: Option<&Names<'_>>) -> String {
        name.unwrap().to_string()
    }

    fn decode(_type: &Type, buf: Option<&[u8]>) -> Result<Self, DecodeError> {
        match buf {
            Some(bytes) if bytes.len() == 4 => {
                Ok(Int(i32::from_be_bytes([bytes[0], bytes[1], bytes[2], bytes[3]])))
            }
            Some(_) => Err(DecodeError::Message("invalid buffer size".to_string())),
            None => Err(DecodeError::Message("unexpected null".to_string())),
        }
    }
}

#[derive(Clone, Debug, PartialEq)]
struct Text(Option<String>);

impl PostgresData for Text {
    fn query(name: Option<&Names<'_>>) -> String {
        name.unwrap().to_string()
    }

    fn decode(_type: &Type, buf: Option<&[u8]>) -> Result<Self, DecodeError> {
        match buf {
            Some(bytes) => match String::from_utf8(bytes.to_vec()) {
                Ok(text) => Ok(Text(Some(text))),
                Err(_) => Err(DecodeError::Message("invalid utf-8".to_string())),
            },
            None => Ok(Text(None)),
        }
    }
}

fn read_count(buf: &mut &[u8], expected: i32) -> Result<(), DecodeError> {
    let count = read_be_i32(buf).map_err(DecodeError::Io)?;
    if count != expected {
        return Err(DecodeError::Message("invalid field count".to_string()));
    }
    Ok(())
}

fn read_field<T: PostgresData>(buf: &mut &[u8], type_: &Type) -> Result<T, DecodeError> {
    let _oid = read_be_i32(buf).map_err(DecodeError::Io)?;
    read_value(type_, buf)
}

#[derive(Clone, Debug, PartialEq)]
struct Inner {
    x: Int,
    label: Text,
}

impl PostgresData for Inner {
    fn query(name: Option<&Names<'_>>) -> String {
        let x = Int::query(Some(&Names(name, "x")));
        let label = Text::query(Some(&Names(name, "label")));
        format!("{}, {}", x, label)
    }

    fn decode(_type: &Type, buf: Option<&[u8]>) -> Result<Self, DecodeError> {
        let mut buf = buf.ok_or_else(|| DecodeError::Message("unexpected null".to_string()))?;
        read_count(&mut buf, 2)?;
        let x = read_field(&mut buf, &Type::INT4)?;
        let label = read_field(&mut buf, &Type::TEXT)?;
        Ok(Inner { x, label })
    }
}

#[derive(Clone, Debug, PartialEq)]
struct Outer {
    id: Int,
    inner: Box<Inner>,
}

impl PostgresData for Outer {
    fn query(name: Option<&Names<'_>>) -> String {
        let id = Int::query(Some(&Names(name, "id")));
        let inner = <Box<Inner>>::query(Some(&Names(name, "in\"ner")));
        format!("{}, {}", id, inner)
    }

    fn decode(_type: &Type, buf: Option<&[u8]>) -> Result<Self, DecodeError> {
        let mut buf = buf.ok_or_else(|| DecodeError::Message("unexpected null".to_string()))?;
        read_count(&mut buf, 2)?;
        let id = read_field(&mut buf, &Type::INT4)?;
        let inner = read_field(&mut buf, &Type::RECORD)?;
        Ok(Outer { id, inner })
    }
}

fn field(oid: i32, value: Option<&[u8]>) -> Vec<u8> {
    let mut bytes = oid.to_be_bytes().to_vec();
    match value {
        Some(value) => {
            bytes.extend_from_slice(&(value.len() as i32).to_be_bytes());
            bytes.extend_from_slice(value);
        }
        None => bytes.extend_from_slice(&(-1i32).to_be_bytes()),
    }
    bytes
}

fn record(fields: &[Vec<u8>]) -> Vec<u8> {
    let mut bytes = (fields.len() as i32).to_be_bytes().to_vec();
    for field in fields {
        bytes.extend_from_slice(field);
    }
    bytes
}

#[test]
fn big_endian_integer_is_read_and_consumed() {
    let bytes = [0x08u8, 0x09, 0xa0, 0xa1, 7, 8];
    let mut buf = &bytes[..];
    assert_eq!(read_be_i32(&mut buf).unwrap(), 0x0809a0a1);
    assert_eq!(buf, &[7u8, 8][..]);
}

#[test]
fn big_endian_integer_with_the_sign_bit_is_negative() {
    let mut buf = &[0xffu8, 0xff, 0xff, 0xff][..];
    assert_eq!(read_be_i32(&mut buf).unwrap(), -1);
    assert!(buf.is_empty());
    let mut buf = &[0x80u8, 0, 0, 0][..];
    assert_eq!(read_be_i32(&mut buf).unwrap(), i32::MIN);
    let mut buf = &[0x7fu8, 0xff, 0xff, 0xff][..];
    assert_eq!(read_be_i32(&mut buf).unwrap(), i32::MAX);
    for value in [0i32, 1, -2, 256, 65_536, -16_777_216, 123_456_789] {
        let bytes = value.to_be_bytes();
        let mut buf = &bytes[..];
        assert_eq!(read_be_i32(&mut buf).unwrap(), value);
    }
}

#[test]
fn short_buffer_is_unexpected_eof_and_left_alone() {
    let bytes = [1u8, 2, 3];
    let mut buf = &bytes[..];
    let error = read_be_i32(&mut buf).unwrap_err();
    assert_eq!(error.kind(), IoErrorKind::UnexpectedEof);
    assert_eq!(error.to_string(), "failed to fill whole buffer");
    assert_eq!(buf, &bytes[..]);
}

#[test]
fn value_is_split_off_and_decoded() {
    let mut bytes = 4i32.to_be_bytes().to_vec();
    bytes.extend_from_slice(&0x01020304i32.to_be_bytes());
    bytes.extend_from_slice(&[9, 9]);
    let mut buf = &bytes[..];
    let value: Int = read_value(&Type::INT4, &mut buf).unwrap();
    assert_eq!(value, Int(0x01020304));
    assert_eq!(buf, &[9u8, 9][..]);
}

#[test]
fn negative_length_is_the_null_value() {
    let mut bytes = (-1i32).to_be_bytes().to_vec();
    bytes.extend_from_slice(&[5, 6]);
    let mut buf = &bytes[..];
    let value: Text = read_value(&Type::TEXT, &mut buf).unwrap();
    assert_eq!(value, Text(None));
    assert_eq!(buf, &[5u8, 6][..]);
    let bytes = (-7i32).to_be_bytes();
    let mut buf = &bytes[..];
    let value: Text = read_value(&Type::TEXT, &mut buf).unwrap();
    assert_eq!(value, Text(None));
}

#[test]
fn empty_value_is_not_null() {
    let bytes = 0i32.to_be_bytes();
    let mut buf = &bytes[..];
    let value: Text = read_value(&Type::TEXT, &mut buf).unwrap();
    assert_eq!(value, Text(Some(String::new())));
}

#[test]
fn length_beyond_the_buffer_is_invalid_buffer_size() {
    let mut bytes = 5i32.to_be_bytes().to_vec();
    bytes.extend_from_slice(&[1, 2, 3]);
    let mut buf = &bytes[..];
    let error = read_value::<Text>(&Type::TEXT, &mut buf).unwrap_err();
    assert!(matches!(error, DecodeError::Message(_)));
    assert_eq!(error.to_string(), "invalid buffer size");
    assert_eq!(buf, &[1u8, 2, 3][..]);
}

#[test]
fn buffer_that_ends_inside_the_length_is_unexpected_eof() {
    let bytes = [0u8, 0];
    let mut buf = &bytes[..];
    let error = read_value::<Text>(&Type::TEXT, &mut buf).unwrap_err();
    match &error {
        DecodeError::Io(error) => assert_eq!(error.kind(), IoErrorKind::UnexpectedEof),
        DecodeError::Message(_) => panic!("expected an end of data"),
    }
    assert_eq!(error.to_string(), "failed to fill whole buffer");
    assert_eq!(buf, &bytes[..]);
}

#[test]
fn failure_of_the_type_is_passed_on() {
    let mut bytes = 2i32.to_be_bytes().to_vec();
    bytes.extend_from_slice(&[1, 2]);
    let mut buf = &bytes[..];
    let error = read_value::<Int>(&Type::INT4, &mut buf).unwrap_err();
    assert_eq!(error.to_string(), "invalid buffer size");
    assert!(buf.is_empty());
}

#[test]
fn boxed_value_asks_for_the_same_columns_and_decodes_alike() {
    let path = Names(None, "n");
    assert_eq!(<Box<Int>>::query(Some(&path)), Int::query(Some(&path)));
    assert_eq!(<Box<Box<Int>>>::query(Some(&path)), "\"n\"");
    let bytes = 77i32.to_be_bytes();
    let boxed = <Box<Int>>::decode(&Type::INT4, Some(&bytes)).unwrap();
    assert_eq!(*boxed, Int::decode(&Type::INT4, Some(&bytes)).unwrap());
    assert!(<Box<Int>>::decode(&Type::INT4, None).is_err());
}

#[test]
fn nested_record_asks_for_one_column_for_each_leaf() {
    let columns = Outer::query(None);
    assert_eq!(columns, "\"id\", (\"in\"\"ner\").\"x\", (\"in\"\"ner\").\"label\"");
    assert_eq!(columns.split(", ").count(), 3);
    let under = Names(None, "row");
    assert_eq!(
        Outer::query(Some(&under)),
        "(\"row\").\"id\", ((\"row\").\"in\"\"ner\").\"x\", ((\"row\").\"in\"\"ner\").\"label\""
    );
}

#[test]
fn nested_record_decodes_back_to_its_fields() {
    let inner = record(&[
        field(23, Some(&(-5i32).to_be_bytes())),
        field(25, Some("héllo".as_bytes())),
    ]);
    let outer = record(&[field(23, Some(&42i32.to_be_bytes())), field(2249, Some(&inner))]);
    let decoded = Outer::decode(&Type::RECORD, Some(&outer)).unwrap();
    let expected = Outer {
        id: Int(42),
        inner: Box::new(Inner {
            x: Int(-5),
            label: Text(Some("héllo".to_string())),
        }),
    };
    assert_eq!(decoded, expected);

    let inner = record(&[field(23, Some(&1i32.to_be_bytes())), field(25, None)]);
    let outer = record(&[field(23, Some(&2i32.to_be_bytes())), field(2249, Some(&inner))]);
    let decoded = Outer::decode(&Type::RECORD, Some(&outer)).unwrap();
    assert_eq!(decoded.inner.label, Text(None));
}

#[test]
fn record_with_a_missing_field_fails_to_decode() {
    let inner = record(&[field(23, Some(&1i32.to_be_bytes())), field(25, None)]);
    let cut = &inner[..inner.len() - 2];
    assert!(Inner::decode(&Type::RECORD, Some(cut)).is_err());
    let short = record(&[field(23, Some(&1i32.to_be_bytes()))]);
    assert!(Inner::decode(&Type::RECORD, Some(&short)).is_err());
    let narrow = record(&[field(23, Some(&[1u8, 2])), field(25, None)]);
    assert!(Inner::decode(&Type::RECORD, Some(&narrow)).is_err());
}
