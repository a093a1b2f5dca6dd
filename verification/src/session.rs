//! What a decode call makes of the bytes that the isolated instance wrote.

use vstd::prelude::*;
use crate::adapter::{reply, DecodedView};
use crate::codec::{decode_response, decoded_outcome, law_response_round_trip};
use crate::error::Error;
use crate::image::{ImageView, J2KImage};
use crate::image_layout::{image_fits, outcome_fits, wire_outcome};

verus! {

/// How a decode call ends, given what the instance wrote.
pub ghost enum Verdict {
    /// The instance sent a consistent descriptor.
    Image(ImageView),
    /// The instance sent a message: the codec rejected the image.
    Rejected(Seq<char>),
    /// The instance sent no outcome, or a descriptor that is not
    /// consistent.
    Malformed,
}

/// The verdict on the output of an instance.
pub open spec fn verdict(bytes: Seq<u8>) -> Verdict {
    match decoded_outcome(bytes) {
        Some(Ok(image)) => if image.well_formed() {
            Verdict::Image(image)
        } else {
            Verdict::Malformed
        },
        Some(Err(message)) => Verdict::Rejected(message),
        None => Verdict::Malformed,
    }
}

/// The verdict that the result of a call amounts to, for a result that
/// [`interpret_output`] can give.
pub open spec fn verdict_of(res: Result<J2KImage, Error>) -> Verdict {
    match res {
        Ok(image) => Verdict::Image(image@),
        Err(Error::Decode(message)) => Verdict::Rejected(message@),
        Err(_) => Verdict::Malformed,
    }
}

/// Turns the output of an instance into the result of the decode call.
///
/// A consistent descriptor is handed on. A message becomes a decode error
/// with that text. Everything else, a descriptor that is not consistent
/// included, is a serialization error.
pub fn interpret_output(bytes: &[u8]) -> (res: Result<J2KImage, Error>)
    ensures
        verdict_of(res) == verdict(bytes@),
        res matches Err(e) ==> e is Decode || e == Error::Serialization,
        res matches Ok(image) ==> image@.well_formed(),
{
    match decode_response(bytes) {
        Ok(Ok(image)) => {
            if image.is_well_formed() {
                Ok(image)
            } else {
                Err(Error::Serialization)
            }
        },
        Ok(Err(message)) => Err(Error::Decode(message)),
        Err(_) => Err(Error::Serialization),
    }
}

/// Ends a call whose instance has run: `output` is what was taken over
/// from the instance's standard output, or nothing where something else
/// still held on to the pipe.
///
/// Without the output the call fails with a pipe ownership error; with it,
/// the result is what [`interpret_output`] makes of the bytes.
pub fn conclude(output: Option<Vec<u8>>) -> (res: Result<J2KImage, Error>)
    ensures
        output is None ==> res == Err::<J2KImage, Error>(Error::PipeOwnership),
        output matches Some(bytes) ==> verdict_of(res) == verdict(bytes@) && (res matches Err(e)
            ==> e is Decode || e == Error::Serialization),
        res matches Ok(image) ==> image@.well_formed(),
{
    match output {
        Some(bytes) => interpret_output(bytes.as_slice()),
        None => Err(Error::PipeOwnership),
    }
}

/// Whatever an instance writes, the call ends in a consistent descriptor
/// or in an error: no verdict carries a descriptor that is not consistent.
pub proof fn law_verdict_is_consistent(bytes: Seq<u8>)
    ensures
        verdict(bytes) matches Verdict::Image(image) ==> image.well_formed(),
{
}

/// A consistent descriptor that is sent is the one that is received.
pub proof fn law_verdict_of_encoding(image: ImageView)
    requires
        image_fits(image),
        image.well_formed(),
    ensures
        verdict(wire_outcome(Ok(image))) == Verdict::Image(image),
{
    law_response_round_trip(Ok(image));
}

/// What the inner side answers is what the caller gets: for every result
/// of the codec whose answer can be sent, the verdict on the bytes of the
/// answer is the descriptor that was made, or the rejection with its text,
/// and never a malformed output.
pub proof fn law_answer_is_received(result: Result<DecodedView, Seq<char>>)
    requires
        outcome_fits(reply(result)),
    ensures
        verdict(wire_outcome(reply(result))) == match reply(result) {
            Ok(image) => Verdict::Image(image),
            Err(message) => Verdict::Rejected(message),
        },
{
    law_response_round_trip(reply(result));
}

} // verus!
