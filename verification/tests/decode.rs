use async_compression::tokio::write::{BzEncoder, ZstdEncoder};
use futures::executor::block_on;
use repodata_cache::decode::{
    decode_document, decoded_or_error, drain_stream, stream_and_decode_to_memory,
};
use repodata_cache::error::FetchError;
use repodata_cache::negotiate::Encoding;
use tokio::io::AsyncWriteExt;

fn zstd_of(payload: &[u8]) -> Vec<u8> {
    let mut encoder = ZstdEncoder::new(Vec::new());
    block_on(encoder.write_all(payload)).unwrap();
    block_on(encoder.shutdown()).unwrap();
    encoder.into_inner()
}

fn bzip2_of(payload: &[u8]) -> Vec<u8> {
    let mut encoder = BzEncoder::new(Vec::new());
    block_on(encoder.write_all(payload)).unwrap();
    block_on(encoder.shutdown()).unwrap();
    encoder.into_inner()
}

fn sample() -> Vec<u8> {
    let mut payload = Vec::new();
    for i in 0..5000u32 {
        payload.extend_from_slice(format!("{{\"n\": {}}}\n", i % 17).as_bytes());
    }
    payload
}

#[test]
fn plain_body_is_returned_unchanged() {
    let body = vec![1u8, 2, 3, 0, 255];
    assert_eq!(decode_document(body.clone(), None), Ok(body));
    assert_eq!(decode_document(Vec::new(), None), Ok(Vec::new()));
}

#[test]
fn zstd_body_is_decompressed() {
    let payload = sample();
    let body = zstd_of(&payload);
    assert_ne!(body, payload);
    assert_eq!(decode_document(body, Some(Encoding::Zst)), Ok(payload));
}

#[test]
fn bzip2_body_is_decompressed() {
    let payload = sample();
    let body = bzip2_of(&payload);
    assert_ne!(body, payload);
    assert_eq!(decode_document(body, Some(Encoding::Bz2)), Ok(payload));
}

#[test]
fn small_payloads_survive_the_round_trip() {
    let payload = b"{}".to_vec();
    assert_eq!(decode_document(zstd_of(&payload), Some(Encoding::Zst)), Ok(payload.clone()));
    assert_eq!(decode_document(bzip2_of(&payload), Some(Encoding::Bz2)), Ok(payload));
}

#[test]
fn garbage_is_a_decode_error() {
    let body = b"this is not compressed at all".to_vec();
    assert_eq!(
        decode_document(body.clone(), Some(Encoding::Zst)),
        Err(FetchError::Decode(Encoding::Zst))
    );
    assert_eq!(decode_document(body, Some(Encoding::Bz2)), Err(FetchError::Decode(Encoding::Bz2)));
}

#[test]
fn body_in_the_other_encoding_is_a_decode_error() {
    let payload = sample();
    assert_eq!(
        decode_document(bzip2_of(&payload), Some(Encoding::Zst)),
        Err(FetchError::Decode(Encoding::Zst))
    );
    assert_eq!(
        decode_document(zstd_of(&payload), Some(Encoding::Bz2)),
        Err(FetchError::Decode(Encoding::Bz2))
    );
}

#[test]
fn truncated_body_is_a_decode_error_and_nothing_is_returned_in_part() {
    let payload = sample();
    let mut zst = zstd_of(&payload);
    zst.truncate(zst.len() / 2);
    assert_eq!(decode_document(zst, Some(Encoding::Zst)), Err(FetchError::Decode(Encoding::Zst)));
    let mut bz2 = bzip2_of(&payload);
    bz2.truncate(bz2.len() / 2);
    assert_eq!(decode_document(bz2, Some(Encoding::Bz2)), Err(FetchError::Decode(Encoding::Bz2)));
}

#[test]
fn empty_compressed_body_is_a_decode_error() {
    assert_eq!(
        decode_document(Vec::new(), Some(Encoding::Zst)),
        Err(FetchError::Decode(Encoding::Zst))
    );
    assert_eq!(
        decode_document(Vec::new(), Some(Encoding::Bz2)),
        Err(FetchError::Decode(Encoding::Bz2))
    );
}

#[test]
fn decompressor_result_becomes_document_or_error() {
    assert_eq!(decoded_or_error(Some(vec![7u8, 8]), Encoding::Zst), Ok(vec![7u8, 8]));
    assert_eq!(decoded_or_error(Some(Vec::new()), Encoding::Bz2), Ok(Vec::new()));
    assert_eq!(decoded_or_error(None, Encoding::Zst), Err(FetchError::Decode(Encoding::Zst)));
    assert_eq!(decoded_or_error(None, Encoding::Bz2), Err(FetchError::Decode(Encoding::Bz2)));
}

#[test]
fn chunks_are_concatenated_in_order() {
    let items = vec![Ok(vec![1u8, 2]), Ok(Vec::new()), Ok(vec![3u8]), Ok(vec![4u8, 5, 6])];
    assert_eq!(drain_stream(&items), Ok(vec![1u8, 2, 3, 4, 5, 6]));
}

#[test]
fn empty_stream_is_an_empty_body() {
    let items: Vec<Result<Vec<u8>, String>> = Vec::new();
    assert_eq!(drain_stream(&items), Ok(Vec::new()));
}

#[test]
fn failed_read_fails_the_whole_stream() {
    let items = vec![Ok(vec![1u8, 2]), Err(String::from("connection reset")), Ok(vec![3u8])];
    assert_eq!(drain_stream(&items), Err(FetchError::Stream(String::from("connection reset"))));
}

#[test]
fn first_failure_is_reported() {
    let items: Vec<Result<Vec<u8>, String>> =
        vec![Err(String::from("first")), Ok(vec![9u8]), Err(String::from("second"))];
    assert_eq!(drain_stream(&items), Err(FetchError::Stream(String::from("first"))));
}

#[test]
fn failure_at_the_end_is_not_truncation() {
    let items = vec![Ok(vec![1u8]), Ok(vec![2u8]), Err(String::from("early eof"))];
    assert_eq!(
        stream_and_decode_to_memory(&items, None),
        Err(FetchError::Stream(String::from("early eof")))
    );
}

#[test]
fn chunked_zstd_stream_is_decoded_to_memory() {
    let payload = sample();
    let body = zstd_of(&payload);
    let (head, tail) = body.split_at(body.len() / 3);
    let items = vec![Ok(head.to_vec()), Ok(tail.to_vec())];
    assert_eq!(stream_and_decode_to_memory(&items, Some(Encoding::Zst)), Ok(payload));
}

#[test]
fn chunked_bzip2_stream_is_decoded_to_memory() {
    let payload = sample();
    let body = bzip2_of(&payload);
    let mut items = Vec::new();
    for chunk in body.chunks(7) {
        items.push(Ok(chunk.to_vec()));
    }
    assert_eq!(stream_and_decode_to_memory(&items, Some(Encoding::Bz2)), Ok(payload));
}

#[test]
fn chunked_plain_stream_is_passed_through() {
    let items = vec![Ok(b"{\"a\"".to_vec()), Ok(b": 1}".to_vec())];
    assert_eq!(stream_and_decode_to_memory(&items, None), Ok(b"{\"a\": 1}".to_vec()));
}

#[test]
fn stream_failure_wins_over_decoding() {
    let items = vec![Ok(b"garbage".to_vec()), Err(String::from("timed out"))];
    assert_eq!(
        stream_and_decode_to_memory(&items, Some(Encoding::Zst)),
        Err(FetchError::Stream(String::from("timed out")))
    );
}

#[test]
fn transport_errors_are_told_from_the_others() {
    assert!(FetchError::Status(404).is_transport());
    assert!(FetchError::Connection(String::from("refused")).is_transport());
    assert!(FetchError::Stream(String::from("reset")).is_transport());
    assert!(FetchError::Decode(Encoding::Zst).is_transport());
    assert!(!FetchError::Parse(String::from("bad json")).is_transport());
    assert!(!FetchError::InvalidUrl.is_transport());
    assert!(!FetchError::CacheProtocol.is_transport());
}
