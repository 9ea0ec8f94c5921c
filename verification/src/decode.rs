//! The transfer decoder: from the items of a response body to the complete
//! document in memory.

use crate::error::FetchError;
use crate::negotiate::Encoding;
use async_compression::tokio::bufread::{BzDecoder, ZstdDecoder};
use futures::FutureExt;
use tokio::io::AsyncReadExt;
use vstd::prelude::*;

verus! {

/// The payload of a zstd stream, or `None` where the bytes do not decode.
pub uninterp spec fn zstd_decoded(input: Seq<u8>) -> Option<Seq<u8>>;

/// The payload of a bzip2 stream, or `None` where the bytes do not decode.
pub uninterp spec fn bzip2_decoded(input: Seq<u8>) -> Option<Seq<u8>>;

/// Runs `async_compression::tokio::bufread::ZstdDecoder` over `input` and
/// reads it to its end. Trusted: the outcome is a function of the bytes
/// alone, which the contract names `zstd_decoded`; a decoder error is `None`.
/// A slice is always ready to be read, so the read completes at its first
/// poll.
#[verifier::external_body]
fn zstd_decode(input: &[u8]) -> (out: Option<Vec<u8>>)
    ensures
        out matches Some(v) ==> zstd_decoded(input@) == Some(v@),
        out is None ==> zstd_decoded(input@) is None,
{
    let mut document = Vec::new();
    let mut decoder = ZstdDecoder::new(input);
    match decoder.read_to_end(&mut document).now_or_never() {
        Some(Ok(_)) => Some(document),
        _ => None,
    }
}

/// Runs `async_compression::tokio::bufread::BzDecoder` over `input` and
/// reads it to its end. Trusted: the outcome is a function of the bytes
/// alone, which the contract names `bzip2_decoded`; a decoder error is
/// `None`.
#[verifier::external_body]
fn bzip2_decode(input: &[u8]) -> (out: Option<Vec<u8>>)
    ensures
        out matches Some(v) ==> bzip2_decoded(input@) == Some(v@),
        out is None ==> bzip2_decoded(input@) is None,
{
    let mut document = Vec::new();
    let mut decoder = BzDecoder::new(input);
    match decoder.read_to_end(&mut document).now_or_never() {
        Some(Ok(_)) => Some(document),
        _ => None,
    }
}

/// The document that a body stands for under an encoding; `None` where the
/// body does not decode.
pub open spec fn decoded_document(body: Seq<u8>, encoding: Option<Encoding>) -> Option<Seq<u8>> {
    match encoding {
        None => Some(body),
        Some(Encoding::Bz2) => bzip2_decoded(body),
        Some(Encoding::Zst) => zstd_decoded(body),
    }
}

/// Turns what a decompressor returned into the decoder's result: the payload,
/// or a `Decode` error that names the encoding.
pub fn decoded_or_error(payload: Option<Vec<u8>>, encoding: Encoding) -> (res: Result<
    Vec<u8>,
    FetchError,
>)
    ensures
        res == match payload {
            Some(document) => Ok::<Vec<u8>, FetchError>(document),
            None => Err(FetchError::Decode(encoding)),
        },
{
    match payload {
        Some(document) => Ok(document),
        None => Err(FetchError::Decode(encoding)),
    }
}

/// Decodes a complete body: unchanged without an encoding, decompressed
/// otherwise.
pub fn decode_document(body: Vec<u8>, encoding: Option<Encoding>) -> (res: Result<
    Vec<u8>,
    FetchError,
>)
    ensures
        match decoded_document(body@, encoding) {
            Some(document) => res matches Ok(v) && v@ == document,
            None => encoding matches Some(e) && res == Err::<Vec<u8>, FetchError>(
                FetchError::Decode(e),
            ),
        },
{
    match encoding {
        None => Ok(body),
        Some(Encoding::Bz2) => decoded_or_error(bzip2_decode(body.as_slice()), Encoding::Bz2),
        Some(Encoding::Zst) => decoded_or_error(zstd_decode(body.as_slice()), Encoding::Zst),
    }
}

/// Whether every item of a body stream is a chunk.
pub open spec fn all_chunks(items: Seq<Result<Vec<u8>, String>>) -> bool {
    forall|i: int| 0 <= i < items.len() ==> (#[trigger] items[i]) is Ok
}

/// The bytes of the chunks of a body stream, in order. A failed item adds
/// nothing.
pub open spec fn concat_chunks(items: Seq<Result<Vec<u8>, String>>) -> Seq<u8>
    decreases items.len(),
{
    if items.len() == 0 {
        Seq::empty()
    } else {
        concat_chunks(items.drop_last()) + match items.last() {
            Ok(chunk) => chunk@,
            Err(_) => Seq::empty(),
        }
    }
}

/// The position of the first failed item of a body stream, or its length
/// where every item is a chunk.
pub open spec fn first_failure(items: Seq<Result<Vec<u8>, String>>) -> int
    decreases items.len(),
{
    if items.len() == 0 {
        0
    } else if items.first() is Err {
        0
    } else {
        1 + first_failure(items.drop_first())
    }
}

/// `first_failure` is a position at which the stream failed, with only chunks
/// before it, or the stream's length.
pub proof fn lemma_first_failure(items: Seq<Result<Vec<u8>, String>>)
    ensures
        0 <= first_failure(items) <= items.len(),
        all_chunks(items.take(first_failure(items))),
        first_failure(items) < items.len() ==> items[first_failure(items)] is Err,
        all_chunks(items) <==> first_failure(items) == items.len(),
    decreases items.len(),
{
    if items.len() == 0 {
    } else if items.first() is Err {
    } else {
        let rest = items.drop_first();
        lemma_first_failure(rest);
        let n = first_failure(rest);
        assert forall|i: int| 0 <= i < n + 1 implies (#[trigger] items.take(n + 1)[i]) is Ok by {
            if i > 0 {
                assert(items.take(n + 1)[i] == rest.take(n)[i - 1]);
            }
        }
        if all_chunks(items) {
            assert forall|i: int| 0 <= i < rest.len() implies (#[trigger] rest[i]) is Ok by {
                assert(rest[i] == items[i + 1]);
            }
        }
        if n == rest.len() {
            assert(rest.take(n) =~= rest);
            assert forall|i: int| 0 <= i < items.len() implies (#[trigger] items[i]) is Ok by {
                if i > 0 {
                    assert(items[i] == rest[i - 1]);
                }
            }
        }
    }
}

/// Drains a body stream into one buffer. The stream is read to its end: a
/// failed item anywhere fails the whole read with the message of the first
/// one, and nothing is returned in part.
pub fn drain_stream(items: &Vec<Result<Vec<u8>, String>>) -> (res: Result<Vec<u8>, FetchError>)
    ensures
        all_chunks(items@) ==> (res matches Ok(body) && body@ == concat_chunks(items@)),
        !all_chunks(items@) ==> (res matches Err(FetchError::Stream(message))
            && items@[first_failure(items@)] matches Err(cause) && message@ == cause@),
{
    let mut body: Vec<u8> = Vec::new();
    let mut i: usize = 0;
    proof {
        lemma_first_failure(items@);
    }
    while i < items.len()
        invariant
            0 <= i <= items.len(),
            i <= first_failure(items@) <= items.len(),
            all_chunks(items@.take(first_failure(items@))),
            first_failure(items@) < items.len() ==> items@[first_failure(items@)] is Err,
            all_chunks(items@) <==> first_failure(items@) == items.len(),
            body@ == concat_chunks(items@.take(i as int)),
        decreases items.len() - i,
    {
        proof {
            if i < first_failure(items@) {
                assert(items@.take(first_failure(items@))[i as int] is Ok);
            }
        }
        match &items[i] {
            Ok(chunk) => {
                let mut j: usize = 0;
                while j < chunk.len()
                    invariant
                        0 <= j <= chunk.len(),
                        body@ == concat_chunks(items@.take(i as int)) + chunk@.take(j as int),
                    decreases chunk.len() - j,
                {
                    body.push(chunk[j]);
                    assert(chunk@.take(j + 1) =~= chunk@.take(j as int).push(chunk@[j as int]));
                    j = j + 1;
                }
                proof {
                    assert(chunk@.take(j as int) =~= chunk@);
                    let next = items@.take(i + 1);
                    assert(next.drop_last() =~= items@.take(i as int));
                    assert(next.last() == items@[i as int]);
                }
            },
            Err(cause) => {
                return Err(FetchError::Stream(cause.clone()));
            },
        }
        i = i + 1;
    }
    proof {
        assert(items@.take(i as int) =~= items@);
    }
    Ok(body)
}

/// Reads a body stream to its end and decodes it: the complete document in
/// memory, or the first thing that went wrong. The stream is drained before
/// anything is decoded.
pub fn stream_and_decode_to_memory(
    items: &Vec<Result<Vec<u8>, String>>,
    encoding: Option<Encoding>,
) -> (res: Result<Vec<u8>, FetchError>)
    ensures
        !all_chunks(items@) ==> (res matches Err(FetchError::Stream(message))
            && items@[first_failure(items@)] matches Err(cause) && message@ == cause@),
        all_chunks(items@) ==> match decoded_document(concat_chunks(items@), encoding) {
            Some(document) => res matches Ok(v) && v@ == document,
            None => encoding matches Some(e) && res == Err::<Vec<u8>, FetchError>(
                FetchError::Decode(e),
            ),
        },
{
    match drain_stream(items) {
        Ok(body) => decode_document(body, encoding),
        Err(error) => Err(error),
    }
}

} // verus!
