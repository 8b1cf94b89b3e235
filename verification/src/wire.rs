//! The wire format of the boundary, as the `bincode` crate implements it:
//! fixed-width integers, least significant byte first; a text as its length
//! and its bytes; the outcome of a call as the index of its variant and the
//! payload of the variant.
//!
//! The codec is not verified here. Its two entry points stand behind
//! contracts that state the format for the shapes that cross the boundary.

use vstd::prelude::*;
use vstd::utf8::{decode_utf8, encode_utf8, valid_utf8};

verus! {

/// The number that `bytes` write, least significant byte first.
pub open spec fn le_value(bytes: Seq<u8>) -> nat
    decreases bytes.len(),
{
    if bytes.len() == 0 {
        0
    } else {
        bytes[0] as nat + 256 * le_value(bytes.drop_first())
    }
}

/// The `n` least significant bytes of `value`, least significant byte first.
pub open spec fn le_bytes(value: nat, n: nat) -> Seq<u8>
    decreases n,
{
    if n == 0 {
        Seq::empty()
    } else {
        seq![(value % 256) as u8] + le_bytes(value / 256, (n - 1) as nat)
    }
}

/// The signed integer of 64 bits that the unsigned `u` stands for in two's
/// complement.
pub open spec fn as_signed(u: nat) -> i64 {
    if u < 0x8000_0000_0000_0000 {
        u as i64
    } else {
        (u - 0x1_0000_0000_0000_0000) as i64
    }
}

/// The unsigned integer that stands for `v` in two's complement.
pub open spec fn as_unsigned(v: i64) -> nat {
    if v >= 0 {
        v as nat
    } else {
        (v + 0x1_0000_0000_0000_0000) as nat
    }
}

/// The integer at the start of `bytes`: eight bytes, least significant
/// first. Fewer bytes hold no integer.
pub open spec fn read_integer(bytes: Seq<u8>) -> Option<i64> {
    if bytes.len() >= 8 {
        Some(as_signed(le_value(bytes.subrange(0, 8))))
    } else {
        None
    }
}

/// The bytes of an integer: eight bytes, least significant first.
pub open spec fn wire_integer(v: i64) -> Seq<u8> {
    le_bytes(as_unsigned(v), 8)
}

/// The bytes of a text: the number of bytes of its UTF-8 encoding as an
/// unsigned integer of 64 bits, then the encoding.
pub open spec fn wire_text(m: Seq<char>) -> Seq<u8> {
    le_bytes(encode_utf8(m).len(), 8) + encode_utf8(m)
}

/// The bytes of the outcome of a call: the index of the variant as an
/// unsigned integer of 32 bits, 0 for a payload and 1 for an error, then the
/// payload or the message of the error.
pub open spec fn wire_outcome(outcome: Result<i64, Seq<char>>) -> Seq<u8> {
    match outcome {
        Ok(v) => le_bytes(0, 4) + wire_integer(v),
        Err(m) => le_bytes(1, 4) + wire_text(m),
    }
}

/// The outcome that a caller reads from `bytes`: the index of the variant in
/// four bytes; for a payload, exactly eight bytes more; for an error, the
/// length of the message in eight bytes and as many bytes of valid UTF-8.
/// Any other bytes hold no outcome.
pub open spec fn read_outcome(bytes: Seq<u8>) -> Option<Result<i64, Seq<char>>> {
    if bytes.len() < 12 {
        None
    } else {
        let tag = le_value(bytes.subrange(0, 4));
        let rest = bytes.subrange(4, bytes.len() as int);
        if tag == 0 {
            if rest.len() == 8 {
                Some(Ok(as_signed(le_value(rest))))
            } else {
                None
            }
        } else if tag == 1 {
            let text = rest.subrange(8, rest.len() as int);
            if le_value(rest.subrange(0, 8)) == text.len() && valid_utf8(text) {
                Some(Err(decode_utf8(text)))
            } else {
                None
            }
        } else {
            None
        }
    }
}

/// The text with which the codec refuses `bytes` as an integer.
pub uninterp spec fn decode_failure(bytes: Seq<u8>) -> Seq<char>;

/// The outcome `r` with its message as a sequence of characters.
pub open spec fn outcome_view(r: Result<i64, String>) -> Result<i64, Seq<char>> {
    match r {
        Ok(v) => Ok(v),
        Err(m) => Err(m@),
    }
}

/// Decodes a 64-bit signed integer from the start of `bytes`.
///
/// Calls `bincode::serde::decode_from_slice` with the configuration
/// `bincode::config::legacy()`, which reads eight bytes, least significant
/// first, and leaves what follows them unread. The contract claims that
/// eight bytes or more give that integer and that fewer give a failure,
/// whose text is a function of the bytes.
#[verifier::external_body]
pub(crate) fn decode(bytes: &[u8]) -> (r: Result<i64, String>)
    ensures
        match r {
            Ok(v) => read_integer(bytes@) == Some(v),
            Err(why) => read_integer(bytes@) is None && why@ == decode_failure(bytes@),
        },
{
    match bincode::serde::decode_from_slice::<i64, _>(bytes, bincode::config::legacy()) {
        Ok((value, _)) => Ok(value),
        Err(e) => Err(format!("{e}")),
    }
}

/// Encodes the outcome of a call.
///
/// Calls `bincode::serde::encode_to_vec` with the configuration
/// `bincode::config::legacy()`, which writes into a vector and so does not
/// fail on these shapes. The contract claims that the bytes are the index of
/// the variant in four bytes, then the payload in eight bytes or the message
/// as its length in eight bytes and its UTF-8 encoding, every integer least
/// significant byte first.
#[verifier::external_body]
pub(crate) fn encode(outcome: &Result<i64, String>) -> (r: Result<Vec<u8>, String>)
    ensures
        match r {
            Ok(bytes) => bytes@ == wire_outcome(outcome_view(*outcome)),
            Err(_) => false,
        },
{
    match bincode::serde::encode_to_vec(outcome, bincode::config::legacy()) {
        Ok(bytes) => Ok(bytes),
        Err(e) => Err(format!("{e}")),
    }
}

/// 256 to the power of `n`.
pub open spec fn radix(n: nat) -> nat
    decreases n,
{
    if n == 0 {
        1
    } else {
        256 * radix((n - 1) as nat)
    }
}

/// The number that bytes write is below 256 to the power of their count.
pub proof fn lemma_value_is_bounded(bytes: Seq<u8>)
    ensures
        le_value(bytes) < radix(bytes.len()),
    decreases bytes.len(),
{
    if bytes.len() > 0 {
        lemma_value_is_bounded(bytes.drop_first());
    }
}

/// Writing the number that bytes write gives the bytes back.
pub proof fn lemma_bytes_of_value(bytes: Seq<u8>)
    ensures
        le_bytes(le_value(bytes), bytes.len()) == bytes,
    decreases bytes.len(),
{
    if bytes.len() > 0 {
        let rest = bytes.drop_first();
        lemma_bytes_of_value(rest);
        let v = le_value(bytes);
        assert(v == bytes[0] as nat + 256 * le_value(rest));
        assert(v % 256 == bytes[0] as nat);
        assert(v / 256 == le_value(rest));
        assert(le_bytes(v, bytes.len()) =~= bytes);
    } else {
        assert(le_bytes(le_value(bytes), 0) =~= bytes);
    }
}

/// A number below 256 to the power of `n` is read back from its `n` bytes.
pub proof fn lemma_value_of_bytes(value: nat, n: nat)
    requires
        value < radix(n),
    ensures
        le_bytes(value, n).len() == n,
        le_value(le_bytes(value, n)) == value,
    decreases n,
{
    if n > 0 {
        let rest = le_bytes(value / 256, (n - 1) as nat);
        assert(value / 256 < radix((n - 1) as nat));
        lemma_value_of_bytes(value / 256, (n - 1) as nat);
        let all = le_bytes(value, n);
        assert(all.drop_first() =~= rest);
        assert(all[0] == (value % 256) as u8);
        assert(value == value % 256 + 256 * (value / 256));
    }
}

/// What is written for an outcome is read back as that outcome: the payload
/// of a success, or the message of an error.
pub proof fn lemma_outcome_round_trip(outcome: Result<i64, Seq<char>>)
    requires
        outcome matches Err(m) ==> encode_utf8(m).len() < radix(8),
    ensures
        read_outcome(wire_outcome(outcome)) == Some(outcome),
{
    broadcast use vstd::utf8::encode_utf8_valid_utf8, vstd::utf8::encode_utf8_decode_utf8;

    assert(radix(4) == 0x1_0000_0000 && radix(8) == 0x1_0000_0000_0000_0000) by {
        reveal_with_fuel(radix, 9);
    }
    let bytes = wire_outcome(outcome);
    match outcome {
        Ok(v) => {
            let tag = le_bytes(0, 4);
            let payload = wire_integer(v);
            lemma_value_of_bytes(0, 4);
            lemma_value_of_bytes(as_unsigned(v), 8);
            assert(bytes.subrange(0, 4) =~= tag);
            assert(bytes.subrange(4, bytes.len() as int) =~= payload);
            assert(as_signed(as_unsigned(v)) == v);
        },
        Err(m) => {
            let tag = le_bytes(1, 4);
            let text = encode_utf8(m);
            let length = le_bytes(text.len(), 8);
            lemma_value_of_bytes(1, 4);
            lemma_value_of_bytes(text.len(), 8);
            let rest = bytes.subrange(4, bytes.len() as int);
            assert(bytes.subrange(0, 4) =~= tag);
            assert(rest =~= length + text);
            assert(rest.subrange(0, 8) =~= length);
            assert(rest.subrange(8, rest.len() as int) =~= text);
        },
    }
}

/// An integer that is read from eight bytes is written as those bytes.
pub proof fn lemma_integer_round_trip(bytes: Seq<u8>)
    requires
        bytes.len() == 8,
    ensures
        wire_integer(as_signed(le_value(bytes))) == bytes,
{
    lemma_value_is_bounded(bytes);
    lemma_bytes_of_value(bytes);
    assert(radix(8) == 0x1_0000_0000_0000_0000) by {
        reveal_with_fuel(radix, 9);
    }
    let u = le_value(bytes);
    assert(as_unsigned(as_signed(u)) == u);
}

} // verus!
