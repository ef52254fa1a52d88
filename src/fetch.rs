use vstd::prelude::*;
use astro_rs::fits::FitsHeader;

verus! {

/// A FITS header as astro-rs decodes it; carried through, never inspected.
#[verifier::external_type_specification]
#[verifier::external_body]
pub struct ExFitsHeader(FitsHeader);

/// The length of one FITS header card, in bytes.
pub const CARD_LEN: usize = 80;

/// Why fetching one work item failed. Such a failure stays with the item:
/// the worker counts it and goes on.
#[derive(Debug)]
pub enum FetchError {
    /// The target is empty or malformed; no request was made.
    InvalidTarget,
    /// The request failed: connection, timeout or a non-success status.
    Transport { detail: String },
    /// The payload is not a whole, non-empty sequence of header cards.
    Decode { length: usize },
}

/// Whether a text parses as an absolute URL.
pub uninterp spec fn parses_as_url(t: Seq<char>) -> bool;

/// The header that the decoder reads from a payload.
pub uninterp spec fn decoded_header(payload: Seq<u8>) -> FitsHeader;

/// A target that a request may be made for: non-empty, and an absolute URL.
pub open spec fn valid_target(t: Seq<char>) -> bool {
    t.len() > 0 && parses_as_url(t)
}

/// A payload length that the decoder reads without leaving bytes over.
pub open spec fn decodable_length(n: nat) -> bool {
    n > 0 && n % (CARD_LEN as nat) == 0
}

/// What decoding `payload` comes to: the decoder's header for it exactly
/// when its length is decodable, else a decode error that gives the length.
pub open spec fn decode_outcome(payload: Seq<u8>, r: Result<FitsHeader, FetchError>) -> bool {
    let n = payload.len();
    match r {
        Ok(h) => decodable_length(n) && h == decoded_header(payload),
        Err(FetchError::Decode { length }) => !decodable_length(n) && length == n,
        Err(_) => false,
    }
}

/// Relies on astro_rs::fits::FitsHeader::from_bytes, which reads the bytes
/// as 80-byte cards and does not fail or panic on any input; the header
/// depends on the bytes alone.
#[verifier::external_body]
fn header_from_bytes(payload: Vec<u8>) -> (r: FitsHeader)
    ensures
        r == decoded_header(payload@),
{
    FitsHeader::from_bytes(payload)
}

/// Relies on reqwest::Url::parse (the url crate's `Url::parse`), which
/// parses an absolute URL and does not panic; only whether it succeeds is
/// kept.
#[verifier::external_body]
fn is_url(t: &str) -> (r: bool)
    ensures
        r == parses_as_url(t@),
{
    reqwest::Url::parse(t).is_ok()
}

/// Checks a target before any request is made for it.
pub fn check_target(target: &str) -> (r: Result<(), FetchError>)
    ensures
        match r {
            Ok(_) => valid_target(target@),
            Err(e) => !valid_target(target@) && e is InvalidTarget,
        },
{
    if target.is_empty() || !is_url(target) {
        Err(FetchError::InvalidTarget)
    } else {
        Ok(())
    }
}

/// Decodes a fetched payload into a header, or fails with a decode error when
/// the payload is not a whole, non-empty number of cards.
pub fn decode_payload(payload: Vec<u8>) -> (r: Result<FitsHeader, FetchError>)
    ensures
        decode_outcome(payload@, r),
{
    let length = payload.len();
    if length == 0 || length % CARD_LEN != 0 {
        Err(FetchError::Decode { length })
    } else {
        Ok(header_from_bytes(payload))
    }
}

/// Finishes one fetch from what the transport gave: the payload, or the
/// detail of a transport failure.
pub fn complete_fetch(transport: Result<Vec<u8>, String>) -> (r: Result<FitsHeader, FetchError>)
    ensures
        match transport {
            Err(detail) => match r {
                Err(FetchError::Transport { detail: d }) => d@ == detail@,
                _ => false,
            },
            Ok(payload) => decode_outcome(payload@, r),
        },
{
    match transport {
        Err(detail) => Err(FetchError::Transport { detail }),
        Ok(payload) => decode_payload(payload),
    }
}

} // verus!
