//! A small API of the kind that bindings are generated for, with the entry
//! point of its one function written out on safe buffers.

use crate::abi::{
    after_encoding, after_fallback, normalize, normalized, AfterEncoding, CallOutcome,
};
use crate::wire::{decode, decode_failure, encode, read_integer, wire_outcome};
use vstd::prelude::*;

verus! {

/// A function that is not part of an impl block: it hands its input back.
pub fn free_standing_function(input: i64) -> (r: Result<i64, String>)
    ensures
        r == Ok::<i64, String>(input),
{
    Ok(input)
}

/// A point in time as it crosses the boundary: the milliseconds since the
/// start of 1970, in place of the date type of the implementation.
#[derive(Debug, Clone, Copy, PartialEq, Eq)]
pub struct DateTimeHelper {
    /// Milliseconds since 1.1.1970 00:00:00.
    pub milliseconds_since_unix_epoch: i64,
}

/// The outcome of calling `free_standing_function` on the argument buffer
/// `input`: the integer that the buffer holds, or the error for a buffer
/// that holds none.
pub open spec fn answer(input: Seq<u8>) -> Result<i64, Seq<char>> {
    match read_integer(input) {
        Some(value) => Ok(value),
        None => Err("Bincode Decode Error: "@ + decode_failure(input)),
    }
}

/// The buffer that the entry point of `free_standing_function` returns for
/// the argument buffer `input`: the outcome of the call on the wire.
pub open spec fn response(input: Seq<u8>) -> Seq<u8> {
    wire_outcome(answer(input))
}

/// What crosses the boundary after a call: the payload where the
/// implementation returned one, and else the error that what happened is
/// normalized to.
pub open spec fn reported(outcome: CallOutcome, payload: i64) -> Result<i64, Seq<char>> {
    match normalized(outcome) {
        None => Ok(payload),
        Some(message) => Err(message),
    }
}

/// The buffer that an entry point with an integer payload hands out for what
/// happened inside it; `payload` is what the implementation returned, where
/// it returned. A buffer always comes back.
pub fn respond(outcome: CallOutcome, payload: i64) -> (r: Vec<u8>)
    ensures
        r@ == wire_outcome(reported(outcome, payload)),
{
    let result: Result<i64, String> = match normalize(outcome) {
        None => Ok(payload),
        Some(error) => Err(error.message),
    };
    match after_encoding(encode(&result)) {
        AfterEncoding::Return(bytes) => bytes,
        AfterEncoding::Fallback(error) => {
            let fallback: Result<i64, String> = Err(error.message);
            after_fallback(encode(&fallback))
        },
    }
}

/// The entry point of `free_standing_function` on safe buffers: decodes the
/// argument, calls the function, and returns the encoded outcome. A buffer
/// always comes back.
pub fn call_free_standing_function(input: &[u8]) -> (r: Vec<u8>)
    ensures
        r@ == response(input@),
{
    let (outcome, payload): (CallOutcome, i64) = match decode(input) {
        Err(why) => (CallOutcome::ArgumentRejected(why), 0),
        Ok(value) => match free_standing_function(value) {
            Ok(payload) => (CallOutcome::Returned, payload),
            Err(message) => (CallOutcome::BodyFailed(message), 0),
        },
    };
    respond(outcome, payload)
}

} // verus!
