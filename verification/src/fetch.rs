//! The fetch pipeline: what to do next to turn a platform URL into records.
//!
//! The pipeline decides and its driver acts. The driver reports each thing
//! that happened as a `FetchEvent` and carries out the `FetchAction` it is
//! answered with: probe the server, send a request, parse a document away
//! from the tasks that drive the network, or finish.

use crate::decode::{
    all_chunks, concat_chunks, decoded_document, first_failure, stream_and_decode_to_memory,
};
use crate::error::FetchError;
use crate::negotiate::{
    get_repodata_url, preferred_variant, url_join, variant_file_name, Encoding,
    VariantAvailability,
};
use vstd::prelude::*;

verus! {

/// What the driver of a fetch reports.
#[derive(Debug, PartialEq, Eq)]
pub enum FetchEvent<R> {
    /// The records behind `platform_url` are wanted.
    Begin { platform_url: String },
    /// The probe of the server behind `platform_url` has answered.
    Probed { platform_url: String, availability: VariantAvailability },
    /// The request could not be sent, or no response arrived.
    SendFailed { message: String },
    /// The server responded to the request for the variant in `encoding`.
    Responded { encoding: Option<Encoding>, status: u16, body: Vec<Result<Vec<u8>, String>> },
    /// The document was parsed, or could not be.
    Parsed { records: Result<Vec<R>, String> },
}

/// What the driver of a fetch does next.
#[derive(Debug, PartialEq, Eq)]
pub enum FetchAction<R> {
    /// Find out which variants the server behind `platform_url` offers.
    Probe { platform_url: String },
    /// Request `url` and expect its body in `encoding`.
    Request { url: String, encoding: Option<Encoding> },
    /// Parse the complete document, off the tasks that drive the network.
    Parse { document: Vec<u8> },
    /// The fetch is over.
    Finish(Result<Vec<R>, FetchError>),
}

/// Whether a status code reports success.
pub open spec fn is_success(status: u16) -> bool {
    200 <= status <= 299
}

/// Accepts a successful status and turns any other into a transport error.
pub fn check_status(status: u16) -> (res: Result<(), FetchError>)
    ensures
        res == if is_success(status) {
            Ok::<(), FetchError>(())
        } else {
            Err(FetchError::Status(status))
        },
{
    if 200 <= status && status <= 299 {
        Ok(())
    } else {
        Err(FetchError::Status(status))
    }
}

/// Decides the next step of a fetch.
///
/// A fetch begins with a probe. The probe's answer fixes the variant and the
/// URL to request. A response with a successful status is drained and
/// decoded, and the document handed on to be parsed; the parser's answer
/// ends the fetch. Whatever goes wrong ends it at once, with the error.
pub fn get_repodata<R>(event: FetchEvent<R>) -> (action: FetchAction<R>)
    ensures
        match event {
            FetchEvent::Begin { platform_url } => action matches FetchAction::Probe {
                platform_url: probed,
            } && probed@ == platform_url@,
            FetchEvent::Probed { platform_url, availability } => match url_join(
                platform_url@,
                variant_file_name(preferred_variant(availability)),
            ) {
                Some(target) => action matches FetchAction::Request { url, encoding } && url@
                    == target && encoding == preferred_variant(availability),
                None => action == FetchAction::<R>::Finish(Err(FetchError::InvalidUrl)),
            },
            FetchEvent::SendFailed { message } => action matches FetchAction::Finish(
                Err(FetchError::Connection(reported)),
            ) && reported@ == message@,
            FetchEvent::Responded { encoding, status, body } => if !is_success(status) {
                action == FetchAction::<R>::Finish(Err(FetchError::Status(status)))
            } else if !all_chunks(body@) {
                action matches FetchAction::Finish(Err(FetchError::Stream(reported)))
                    && body@[first_failure(body@)] matches Err(cause) && reported@ == cause@
            } else {
                match decoded_document(concat_chunks(body@), encoding) {
                    Some(decoded) => action matches FetchAction::Parse { document } && document@
                        == decoded,
                    None => encoding matches Some(e) && action == FetchAction::<R>::Finish(
                        Err(FetchError::Decode(e)),
                    ),
                }
            },
            FetchEvent::Parsed { records } => match records {
                Ok(parsed) => action == FetchAction::Finish(Ok(parsed)),
                Err(message) => action matches FetchAction::Finish(
                    Err(FetchError::Parse(reported)),
                ) && reported@ == message@,
            },
        },
{
    match event {
        FetchEvent::Begin { platform_url } => FetchAction::Probe { platform_url },
        FetchEvent::Probed { platform_url, availability } => {
            match get_repodata_url(platform_url.as_str(), availability) {
                Ok((url, encoding)) => FetchAction::Request { url, encoding },
                Err(error) => FetchAction::Finish(Err(error)),
            }
        },
        FetchEvent::SendFailed { message } => FetchAction::Finish(
            Err(FetchError::Connection(message)),
        ),
        FetchEvent::Responded { encoding, status, body } => {
            match check_status(status) {
                Err(error) => FetchAction::Finish(Err(error)),
                Ok(_) => match stream_and_decode_to_memory(&body, encoding) {
                    Ok(document) => FetchAction::Parse { document },
                    Err(error) => FetchAction::Finish(Err(error)),
                },
            }
        },
        FetchEvent::Parsed { records } => match records {
            Ok(parsed) => FetchAction::Finish(Ok(parsed)),
            Err(message) => FetchAction::Finish(Err(FetchError::Parse(message))),
        },
    }
}

} // verus!
