//! The transport codec: requests and responses to and from the bytes that
//! cross the isolation boundary.
//!
//! A value has exactly one encoding, and the decoders take nothing else for
//! it: a buffer decodes to a value if and only if it is that value's
//! encoding, from its first byte to its last.

use vstd::prelude::*;
use crate::decode::{read_outcome, read_request};
use crate::encode::{outcome_view, write_outcome, write_request};
use crate::error::Error;
use crate::image::J2KImage;
use crate::image_layout::{
    lemma_outcome_read_back, lemma_outcome_was_written, outcome_fits, parse_outcome, wire_outcome,
    OutcomeView,
};
use crate::layout::{
    lemma_request_read_back, lemma_request_was_written, parse_request, request_fits, wire_request,
};
use crate::request::{DecodeImageRequest, RequestView};

verus! {

/// The request that a whole buffer stands for, if it stands for one.
pub open spec fn decoded_request(bytes: Seq<u8>) -> Option<RequestView> {
    match parse_request(bytes, 0) {
        Some((r, end)) => if end == bytes.len() {
            Some(r)
        } else {
            None
        },
        None => None,
    }
}

/// Encodes a request.
///
/// Fails only for an image of more than `u32::MAX` bytes, which no array
/// on the wire can hold.
pub fn encode_request(req: &DecodeImageRequest) -> (res: Result<Vec<u8>, Error>)
    ensures
        res.is_ok() == request_fits(req@),
        res matches Ok(bytes) ==> bytes@ == wire_request(req@),
        res matches Err(e) ==> e == Error::Serialization,
{
    let mut out: Vec<u8> = Vec::new();
    if write_request(&mut out, req) {
        assert(out@ =~= wire_request(req@));
        Ok(out)
    } else {
        Err(Error::Serialization)
    }
}

/// Decodes a request.
///
/// Succeeds exactly on the encoding of a request, and then gives that
/// request; every other buffer is a serialization error.
pub fn decode_request(bytes: &[u8]) -> (res: Result<DecodeImageRequest, Error>)
    ensures
        match res {
            Ok(req) => decoded_request(bytes@) == Some(req@),
            Err(e) => e == Error::Serialization && decoded_request(bytes@).is_none(),
        },
        res matches Ok(req) ==> request_fits(req@) && bytes@ == wire_request(req@),
        res.is_err() ==> forall|r: RequestView|
            request_fits(r) ==> bytes@ != #[trigger] wire_request(r),
{
    proof {
        law_request_decoding_is_exact(bytes@);
    }
    match read_request(bytes, 0) {
        Some((req, end)) => {
            if end == bytes.len() {
                proof {
                    lemma_request_was_written(bytes@, 0);
                    assert(bytes@.subrange(0, bytes@.len() as int) =~= bytes@);
                }
                Ok(req)
            } else {
                Err(Error::Serialization)
            }
        },
        None => Err(Error::Serialization),
    }
}

/// A request that is encoded and then decoded comes back as it was.
pub proof fn law_request_round_trip(r: RequestView)
    requires
        request_fits(r),
    ensures
        decoded_request(wire_request(r)) == Some(r),
{
    let bytes = wire_request(r);
    assert(bytes.subrange(0, bytes.len() as int) =~= bytes);
    lemma_request_read_back(r, bytes, 0);
}

/// A buffer decodes to a request exactly when it is the encoding of that
/// request; a buffer that decodes to nothing is the encoding of none.
pub proof fn law_request_decoding_is_exact(bytes: Seq<u8>)
    ensures
        forall|r: RequestView|
            decoded_request(bytes) == Some(r) <==> request_fits(r) && bytes == #[trigger] wire_request(
                r,
            ),
{
    assert forall|r: RequestView|
        decoded_request(bytes) == Some(r) <==> request_fits(r) && bytes == #[trigger] wire_request(
            r,
        ) by {
        if decoded_request(bytes) == Some(r) {
            lemma_request_was_written(bytes, 0);
            assert(bytes.subrange(0, bytes.len() as int) =~= bytes);
        }
        if request_fits(r) && bytes == wire_request(r) {
            law_request_round_trip(r);
        }
    }
}

/// The outcome that a whole buffer stands for, if it stands for one.
pub open spec fn decoded_outcome(bytes: Seq<u8>) -> Option<OutcomeView> {
    match parse_outcome(bytes, 0) {
        Some((r, end)) => if end == bytes.len() {
            Some(r)
        } else {
            None
        },
        None => None,
    }
}

/// Encodes the outcome of a decode: the descriptor of the image, or the
/// text that says why there is none.
///
/// Fails only where a payload, a list of components or a message is longer
/// than `u32::MAX`, which nothing on the wire can hold.
pub fn encode_response(outcome: &Result<J2KImage, String>) -> (res: Result<Vec<u8>, Error>)
    ensures
        res.is_ok() == outcome_fits(outcome_view(*outcome)),
        res matches Ok(bytes) ==> bytes@ == wire_outcome(outcome_view(*outcome)),
        res matches Err(e) ==> e == Error::Serialization,
{
    let mut out: Vec<u8> = Vec::new();
    if write_outcome(&mut out, outcome) {
        assert(out@ =~= wire_outcome(outcome_view(*outcome)));
        Ok(out)
    } else {
        Err(Error::Serialization)
    }
}

/// Decodes the outcome of a decode.
///
/// Succeeds exactly on the encoding of an outcome, and then gives that
/// outcome; every other buffer is a serialization error.
pub fn decode_response(bytes: &[u8]) -> (res: Result<Result<J2KImage, String>, Error>)
    ensures
        match res {
            Ok(outcome) => decoded_outcome(bytes@) == Some(outcome_view(outcome)),
            Err(e) => e == Error::Serialization && decoded_outcome(bytes@).is_none(),
        },
        res matches Ok(outcome) ==> outcome_fits(outcome_view(outcome)) && bytes@ == wire_outcome(
            outcome_view(outcome),
        ),
        res.is_err() ==> forall|r: OutcomeView|
            outcome_fits(r) ==> bytes@ != #[trigger] wire_outcome(r),
{
    proof {
        law_response_decoding_is_exact(bytes@);
    }
    match read_outcome(bytes, 0) {
        Some((outcome, end)) => {
            if end == bytes.len() {
                proof {
                    lemma_outcome_was_written(bytes@, 0);
                    assert(bytes@.subrange(0, bytes@.len() as int) =~= bytes@);
                }
                Ok(outcome)
            } else {
                Err(Error::Serialization)
            }
        },
        None => Err(Error::Serialization),
    }
}

/// An outcome that is encoded and then decoded comes back as it was.
pub proof fn law_response_round_trip(r: OutcomeView)
    requires
        outcome_fits(r),
    ensures
        decoded_outcome(wire_outcome(r)) == Some(r),
{
    let bytes = wire_outcome(r);
    assert(bytes.subrange(0, bytes.len() as int) =~= bytes);
    lemma_outcome_read_back(r, bytes, 0);
}

/// A buffer decodes to an outcome exactly when it is the encoding of that
/// outcome; a buffer that decodes to nothing is the encoding of none.
pub proof fn law_response_decoding_is_exact(bytes: Seq<u8>)
    ensures
        forall|r: OutcomeView|
            decoded_outcome(bytes) == Some(r) <==> outcome_fits(r) && bytes == #[trigger] wire_outcome(
                r,
            ),
{
    assert forall|r: OutcomeView|
        decoded_outcome(bytes) == Some(r) <==> outcome_fits(r) && bytes == #[trigger] wire_outcome(
            r,
        ) by {
        if decoded_outcome(bytes) == Some(r) {
            lemma_outcome_was_written(bytes, 0);
            assert(bytes.subrange(0, bytes.len() as int) =~= bytes);
        }
        if outcome_fits(r) && bytes == wire_outcome(r) {
            law_response_round_trip(r);
        }
    }
}

} // verus!
