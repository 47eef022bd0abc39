use amadeus_postgres::binary_copy::BinaryCopyOutStream;
use amadeus_postgres::error::{IoError, IoErrorKind, PostgresError};
use amadeus_postgres::export::drain;
use bytes::Bytes;

const MAGIC: &[u8] = b"PGCOPY\n\xff\r\n\0";

fn header() -> Vec<u8> {
    let mut bytes = MAGIC.to_vec();
    bytes.extend_from_slice(&[0, 0, 0, 0]);
    bytes.extend_from_slice(&[0, 0, 0, 0]);
    bytes
}

fn row(value: Option<&[u8]>) -> Vec<u8> {
    let mut bytes = vec![0, 1];
    match value {
        Some(value) => {
            bytes.extend_from_slice(&(value.len() as i32).to_be_bytes());
            bytes.extend_from_slice(value);
        }
        None => bytes.extend_from_slice(&(-1i32).to_be_bytes()),
    }
    bytes
}

fn trailer() -> Vec<u8> {
    vec![0xff, 0xff]
}

fn chunk(parts: &[Vec<u8>]) -> Bytes {
    Bytes::from(parts.concat())
}

fn unexpected_eof() -> PostgresError {
    PostgresError::Io(IoError::new(
        IoErrorKind::UnexpectedEof,
        "error parsing response from server: unexpected EOF",
    ))
}

fn kind_of(error: &PostgresError) -> Option<IoErrorKind> {
    match error {
        PostgresError::Io(error) => Some(error.kind()),
        PostgresError::Postgres(_) => None,
    }
}

#[test]
fn first_chunk_yields_field_behind_header() {
    let mut stream = BinaryCopyOutStream::new();
    let first = chunk(&[header(), row(Some(&[7, 9]))]);
    assert!(stream.check(&first));
    let item = stream.poll_next(Some(Ok(first)));
    assert_eq!(item, Some(Ok(Some(Bytes::from(vec![7u8, 9])))));
    let item = stream.poll_next(Some(Ok(chunk(&[row(Some(&[1, 2, 3]))]))));
    assert_eq!(item, Some(Ok(Some(Bytes::from(vec![1u8, 2, 3])))));
    let item = stream.poll_next(Some(Ok(chunk(&[trailer()]))));
    assert_eq!(item, None);
}

#[test]
fn header_extension_is_skipped() {
    let mut bytes = MAGIC.to_vec();
    bytes.extend_from_slice(&[0, 0, 0, 0]);
    bytes.extend_from_slice(&[0, 0, 0, 3]);
    bytes.extend_from_slice(&[0xaa, 0xbb, 0xcc]);
    bytes.extend_from_slice(&row(Some(&[5])));
    let mut stream = BinaryCopyOutStream::new();
    let item = stream.poll_next(Some(Ok(Bytes::from(bytes))));
    assert_eq!(item, Some(Ok(Some(Bytes::from(vec![5u8])))));
}

#[test]
fn header_extension_longer_than_chunk_is_truncated() {
    let mut bytes = MAGIC.to_vec();
    bytes.extend_from_slice(&[0, 0, 0, 0]);
    bytes.extend_from_slice(&[0, 0, 0, 9]);
    bytes.extend_from_slice(&[0xaa, 0xbb, 0xcc]);
    let mut stream = BinaryCopyOutStream::new();
    let item = stream.poll_next(Some(Ok(Bytes::from(bytes))));
    assert_eq!(item, Some(Err(unexpected_eof())));
}

#[test]
fn wrong_signature_is_malformed_data() {
    let mut bytes = header();
    bytes[3] = b'X';
    bytes.extend_from_slice(&row(Some(&[7])));
    let mut stream = BinaryCopyOutStream::new();
    let item = stream.poll_next(Some(Ok(Bytes::from(bytes.clone()))));
    let error = item.unwrap().unwrap_err();
    assert_eq!(kind_of(&error), Some(IoErrorKind::InvalidData));
    assert_eq!(
        error.to_string(),
        "error parsing response from server: invalid magic value"
    );
    let items = drain(&[Bytes::from(bytes), chunk(&[row(Some(&[1]))])]).unwrap();
    assert_eq!(items.len(), 1);
    assert!(items[0].is_err());
}

#[test]
fn short_first_chunk_is_unexpected_eof_even_with_wrong_signature() {
    let mut stream = BinaryCopyOutStream::new();
    let item = stream.poll_next(Some(Ok(Bytes::from(vec![b'X'; 12]))));
    let error = item.unwrap().unwrap_err();
    assert_eq!(kind_of(&error), Some(IoErrorKind::UnexpectedEof));
}

#[test]
fn row_identifier_flag_is_refused() {
    let mut bytes = MAGIC.to_vec();
    bytes.extend_from_slice(&[0, 1, 0, 0]);
    bytes.extend_from_slice(&[0, 0, 0, 0]);
    bytes.extend_from_slice(&row(Some(&[7])));
    let mut stream = BinaryCopyOutStream::new();
    let item = stream.poll_next(Some(Ok(Bytes::from(bytes))));
    let error = item.unwrap().unwrap_err();
    assert_eq!(kind_of(&error), Some(IoErrorKind::InvalidData));
    assert_eq!(
        error.to_string(),
        "error parsing response from server: rows with object identifiers are not supported"
    );
}

#[test]
fn other_flag_bits_are_ignored() {
    let mut bytes = MAGIC.to_vec();
    bytes.extend_from_slice(&[0x7f, 0xfe, 0xff, 0xff]);
    bytes.extend_from_slice(&[0, 0, 0, 0]);
    bytes.extend_from_slice(&row(None));
    let mut stream = BinaryCopyOutStream::new();
    assert_eq!(stream.poll_next(Some(Ok(Bytes::from(bytes)))), Some(Ok(None)));
}

#[test]
fn trailer_round_trip() {
    for count in 0..5usize {
        let values: Vec<Vec<u8>> = (0..count).map(|i| vec![i as u8; i + 1]).collect();
        let mut records: Vec<Vec<u8>> = values.iter().map(|v| row(Some(v))).collect();
        records.push(trailer());
        let mut chunks: Vec<Bytes> = Vec::new();
        for (i, record) in records.iter().enumerate() {
            if i == 0 {
                chunks.push(chunk(&[header(), record.clone()]));
            } else {
                chunks.push(Bytes::from(record.clone()));
            }
        }
        let items = drain(&chunks).unwrap();
        assert_eq!(items.len(), count);
        for (item, value) in items.iter().zip(values.iter()) {
            assert_eq!(item, &Ok(Some(Bytes::from(value.clone()))));
        }

        chunks.pop();
        let items = drain(&chunks).unwrap();
        assert_eq!(items.len(), count + 1);
        for (item, value) in items.iter().zip(values.iter()) {
            assert_eq!(item, &Ok(Some(Bytes::from(value.clone()))));
        }
        let last = items.last().unwrap().as_ref().unwrap_err();
        assert_eq!(kind_of(last), Some(IoErrorKind::UnexpectedEof));
        assert_eq!(last.to_string(), "connection closed");
    }
}

#[test]
fn chunks_behind_the_trailer_are_left_alone() {
    let chunks = [
        chunk(&[header(), row(Some(&[1]))]),
        chunk(&[trailer()]),
        chunk(&[row(Some(&[2]))]),
    ];
    let items = drain(&chunks).unwrap();
    assert_eq!(items, vec![Ok(Some(Bytes::from(vec![1u8])))]);
}

#[test]
fn null_and_empty_are_distinct() {
    let mut stream = BinaryCopyOutStream::new();
    let null = stream.poll_next(Some(Ok(chunk(&[header(), row(None)]))));
    assert_eq!(null, Some(Ok(None)));
    let empty = stream.poll_next(Some(Ok(chunk(&[row(Some(&[]))]))));
    assert_eq!(empty, Some(Ok(Some(Bytes::new()))));
    assert_ne!(null, empty);
    assert_eq!(row(None).len(), 6);
}

#[test]
fn null_takes_no_bytes_of_value() {
    let mut bytes = row(None);
    bytes.extend_from_slice(&[1, 2, 3]);
    let mut stream = BinaryCopyOutStream::new();
    let _ = stream.poll_next(Some(Ok(chunk(&[header(), row(Some(&[0]))]))));
    assert_eq!(stream.poll_next(Some(Ok(Bytes::from(bytes)))), Some(Ok(None)));
}

#[test]
fn every_cut_of_a_row_is_unexpected_eof() {
    let full = row(Some(&[1, 2, 3, 4, 5]));
    for len in 0..full.len() {
        let mut stream = BinaryCopyOutStream::new();
        let _ = stream.poll_next(Some(Ok(chunk(&[header(), row(None)]))));
        let item = stream.poll_next(Some(Ok(Bytes::from(full[..len].to_vec()))));
        assert_eq!(item, Some(Err(unexpected_eof())), "cut at {}", len);
    }
    let first = [header(), full].concat();
    for len in 0..first.len() {
        let mut stream = BinaryCopyOutStream::new();
        let item = stream.poll_next(Some(Ok(Bytes::from(first[..len].to_vec()))));
        assert_eq!(item, Some(Err(unexpected_eof())), "cut at {}", len);
    }
}

#[test]
fn declared_length_beyond_chunk_is_unexpected_eof() {
    let mut bytes = vec![0, 1];
    bytes.extend_from_slice(&1000i32.to_be_bytes());
    bytes.extend_from_slice(&[1, 2, 3]);
    let mut stream = BinaryCopyOutStream::new();
    let _ = stream.poll_next(Some(Ok(chunk(&[header(), row(None)]))));
    let item = stream.poll_next(Some(Ok(Bytes::from(bytes))));
    assert_eq!(item, Some(Err(unexpected_eof())));
}

#[test]
fn negative_length_other_than_null_is_unexpected_eof() {
    let mut bytes = vec![0, 1];
    bytes.extend_from_slice(&(-2i32).to_be_bytes());
    bytes.extend_from_slice(&[1, 2, 3]);
    let mut stream = BinaryCopyOutStream::new();
    let _ = stream.poll_next(Some(Ok(chunk(&[header(), row(None)]))));
    let item = stream.poll_next(Some(Ok(Bytes::from(bytes))));
    assert_eq!(item, Some(Err(unexpected_eof())));
}

#[test]
fn value_is_a_slice_of_the_chunk() {
    let first = chunk(&[header(), row(Some(&[4, 5, 6]))]);
    let range = first.as_ptr_range();
    let mut stream = BinaryCopyOutStream::new();
    let value = stream.poll_next(Some(Ok(first.clone()))).unwrap().unwrap().unwrap();
    assert_eq!(&value[..], &[4, 5, 6]);
    assert!(range.start <= value.as_ptr() && value.as_ptr() < range.end);
}

#[test]
fn closed_channel_is_unexpected_eof() {
    let mut stream = BinaryCopyOutStream::new();
    let item = stream.poll_next(None);
    let error = item.unwrap().unwrap_err();
    assert_eq!(kind_of(&error), Some(IoErrorKind::UnexpectedEof));
    assert_eq!(error.to_string(), "connection closed");
}

#[test]
fn driver_failure_is_passed_on_as_text() {
    let failure = "port=notanumber".parse::<tokio_postgres::Config>().unwrap_err();
    let text = failure.to_string();
    assert!(!text.is_empty());
    let mut stream = BinaryCopyOutStream::new();
    let item = stream.poll_next(Some(Err(failure)));
    assert_eq!(item, Some(Err(PostgresError::Postgres(text))));
}

#[test]
fn unexpected_field_count_is_not_admitted() {
    let stream = BinaryCopyOutStream::new();
    let two = chunk(&[header(), vec![0, 2, 0, 0, 0, 0, 0, 0, 0, 0]]);
    assert!(!stream.check(&two));
    assert!(stream.check(&chunk(&[header(), trailer()])));
    assert!(stream.check(&chunk(&[header(), row(None)])));
    assert!(stream.check(&Bytes::new()));
    assert_eq!(drain(&[two]), None);
    let later = [chunk(&[header(), row(None)]), Bytes::from(vec![0u8, 0])];
    assert_eq!(drain(&later), None);
}

#[test]
fn nothing_follows_the_trailer() {
    let mut stream = BinaryCopyOutStream::new();
    assert!(!stream.is_finished());
    let _ = stream.poll_next(Some(Ok(chunk(&[header(), row(Some(&[1]))]))));
    assert!(!stream.is_finished());
    assert_eq!(stream.poll_next(Some(Ok(chunk(&[trailer()])))), None);
    assert!(stream.is_finished());

    assert_eq!(stream.poll_next(None), None);
    assert_eq!(stream.poll_next(Some(Ok(chunk(&[row(Some(&[2]))])))), None);
    assert_eq!(stream.poll_next(Some(Ok(Bytes::new()))), None);
    let failure = "port=notanumber".parse::<tokio_postgres::Config>().unwrap_err();
    assert_eq!(stream.poll_next(Some(Err(failure))), None);
    assert!(stream.is_finished());
    let two = chunk(&[vec![0, 2, 0, 0, 0, 0, 0, 0, 0, 0]]);
    assert!(stream.check(&two));
    assert_eq!(stream.poll_next(Some(Ok(two))), None);
}

#[test]
fn header_and_trailer_in_one_chunk_finish_the_export() {
    let mut stream = BinaryCopyOutStream::new();
    assert_eq!(stream.poll_next(Some(Ok(chunk(&[header(), trailer()])))), None);
    assert!(stream.is_finished());
    assert_eq!(stream.poll_next(None), None);
}

#[test]
fn failure_does_not_finish_the_decoder() {
    let mut stream = BinaryCopyOutStream::new();
    let item = stream.poll_next(None);
    assert!(matches!(item, Some(Err(_))));
    assert!(!stream.is_finished());
    let item = stream.poll_next(Some(Ok(Bytes::from(vec![1u8]))));
    assert_eq!(item, Some(Err(unexpected_eof())));
    assert!(!stream.is_finished());
}
