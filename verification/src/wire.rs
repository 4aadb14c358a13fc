//! The byte form in which records are persisted: integers in eight bytes,
//! least significant byte first; a text as the number of its UTF-8 bytes
//! followed by those bytes. Each form is read back by the parser that
//! belongs to it, which consumes what the form holds and no more.

use vstd::prelude::*;
use vstd::bytes::*;
use vstd::slice::*;
use vstd::string::*;
use vstd::utf8::*;

verus! {

/// The eight bytes of an unsigned integer.
pub open spec fn u64_bytes(value: u64) -> Seq<u8> {
    spec_u64_to_le_bytes(value)
}

/// The eight bytes of a signed integer, in two's complement.
pub open spec fn i64_bytes(value: i64) -> Seq<u8> {
    spec_u64_to_le_bytes(value as u64)
}

/// The bytes of a text: the length of its UTF-8 form, then that form.
pub open spec fn text_bytes(text: Seq<char>) -> Seq<u8> {
    u64_bytes(encode_utf8(text).len() as u64) + encode_utf8(text)
}

/// Whether the length of a text can be written down.
pub open spec fn text_fits(text: Seq<char>) -> bool {
    encode_utf8(text).len() <= u64::MAX
}

/// Reads one byte off the front of `bytes`.
pub open spec fn parse_u8(bytes: Seq<u8>) -> Option<(u8, Seq<u8>)> {
    if bytes.len() >= 1 {
        Some((bytes[0], bytes.skip(1)))
    } else {
        None
    }
}

/// Reads an unsigned integer off the front of `bytes`.
pub open spec fn parse_u64(bytes: Seq<u8>) -> Option<(u64, Seq<u8>)> {
    if bytes.len() >= 8 {
        Some((spec_u64_from_le_bytes(bytes.subrange(0, 8)), bytes.skip(8)))
    } else {
        None
    }
}

/// Reads a signed integer off the front of `bytes`.
pub open spec fn parse_i64(bytes: Seq<u8>) -> Option<(i64, Seq<u8>)> {
    match parse_u64(bytes) {
        Some((raw, rest)) => Some((raw as i64, rest)),
        None => None,
    }
}

/// Reads a text off the front of `bytes`.
pub open spec fn parse_text(bytes: Seq<u8>) -> Option<(Seq<char>, Seq<u8>)> {
    match parse_u64(bytes) {
        Some((length, rest)) => if length <= rest.len() && valid_utf8(
            rest.subrange(0, length as int),
        ) {
            Some((decode_utf8(rest.subrange(0, length as int)), rest.skip(length as int)))
        } else {
            None
        },
        None => None,
    }
}

/// An unsigned integer is read back from its bytes, whatever follows
/// them; and what is read as an unsigned integer was written as one.
pub proof fn lemma_u64_round_trip(value: u64, bytes: Seq<u8>, rest: Seq<u8>)
    ensures
        u64_bytes(value).len() == 8,
        parse_u64(u64_bytes(value) + rest) == Some((value, rest)),
        parse_u64(bytes) == Some((value, rest)) ==> bytes == u64_bytes(value) + rest,
{
    lemma_auto_spec_u64_to_from_le_bytes();
    let written = u64_bytes(value) + rest;
    assert(written.subrange(0, 8) =~= u64_bytes(value));
    assert(written.skip(8) =~= rest);
    if parse_u64(bytes) == Some((value, rest)) {
        let head = bytes.subrange(0, 8);
        assert(spec_u64_to_le_bytes(spec_u64_from_le_bytes(head)) == head);
        assert(bytes =~= head + bytes.skip(8));
    }
}

/// A signed integer and the unsigned integer with the same bits stand for
/// each other.
pub proof fn lemma_sign_cast_round_trip(signed: i64, raw: u64)
    ensures
        ((signed as u64) as i64) == signed,
        ((raw as i64) as u64) == raw,
{
    assert(((signed as u64) as i64) == signed) by (bit_vector);
    assert(((raw as i64) as u64) == raw) by (bit_vector);
}

/// A signed integer is read back from its bytes, whatever follows them;
/// and what is read as a signed integer was written as one.
pub proof fn lemma_i64_round_trip(value: i64, bytes: Seq<u8>, rest: Seq<u8>)
    ensures
        i64_bytes(value).len() == 8,
        parse_i64(i64_bytes(value) + rest) == Some((value, rest)),
        parse_i64(bytes) == Some((value, rest)) ==> bytes == i64_bytes(value) + rest,
{
    lemma_sign_cast_round_trip(value, 0);
    lemma_u64_round_trip(value as u64, bytes, rest);
    if parse_i64(bytes) == Some((value, rest)) {
        let (raw, tail) = parse_u64(bytes)->0;
        lemma_sign_cast_round_trip(0, raw);
        lemma_u64_round_trip(raw, bytes, rest);
    }
}

/// A text is read back from its bytes, whatever follows them; and what is
/// read as a text was written as one.
pub proof fn lemma_text_round_trip(text: Seq<char>, bytes: Seq<u8>, rest: Seq<u8>)
    ensures
        text_fits(text) ==> parse_text(text_bytes(text) + rest) == Some((text, rest)),
        parse_text(bytes) == Some((text, rest)) ==> bytes == text_bytes(text) + rest && text_fits(
            text,
        ),
{
    if text_fits(text) {
        let encoded = encode_utf8(text);
        let length = encoded.len() as u64;
        let written = text_bytes(text) + rest;
        assert(written =~= u64_bytes(length) + (encoded + rest));
        lemma_u64_round_trip(length, written, encoded + rest);
        assert((encoded + rest).subrange(0, length as int) =~= encoded);
        assert((encoded + rest).skip(length as int) =~= rest);
        encode_utf8_valid_utf8(text);
        encode_utf8_decode_utf8(text);
    }
    if parse_text(bytes) == Some((text, rest)) {
        let (length, tail) = parse_u64(bytes)->0;
        lemma_u64_round_trip(length, bytes, tail);
        let body = tail.subrange(0, length as int);
        decode_utf8_encode_utf8(body);
        assert(tail =~= body + rest);
        assert(bytes =~= (u64_bytes(length) + body) + rest);
    }
}

/// Writes an unsigned integer at the end of `out`.
pub fn put_u64(out: &mut Vec<u8>, value: u64)
    ensures
        final(out)@ == old(out)@ + u64_bytes(value),
{
    let mut bytes = u64_to_le_bytes(value);
    out.append(&mut bytes);
}

/// Writes a signed integer at the end of `out`.
pub fn put_i64(out: &mut Vec<u8>, value: i64)
    ensures
        final(out)@ == old(out)@ + i64_bytes(value),
{
    let raw: u64 = #[verifier::truncate]
    (value as u64);
    put_u64(out, raw);
}

/// Writes a text at the end of `out`.
pub fn put_text(out: &mut Vec<u8>, text: &str)
    ensures
        final(out)@ == old(out)@ + text_bytes(text@),
        text_fits(text@),
{
    let encoded = text.as_bytes();
    let length = encoded.len();
    put_u64(out, length as u64);
    let mut body = slice_to_vec(encoded);
    out.append(&mut body);
    assert(out@ =~= old(out)@ + text_bytes(text@));
}

/// Reads the byte at the position `at`.
pub fn take_u8(input: &[u8], at: usize) -> (res: Option<(u8, usize)>)
    requires
        at <= input.len(),
    ensures
        match res {
            Some((value, next)) => at <= next <= input.len() && parse_u8(input@.skip(at as int))
                == Some((value, input@.skip(next as int))),
            None => parse_u8(input@.skip(at as int)) is None,
        },
{
    if input.len() - at < 1 {
        return None;
    }
    let value = input[at];
    assert(input@.skip(at as int).skip(1) =~= input@.skip(at + 1));
    Some((value, at + 1))
}

/// Reads the unsigned integer that starts at the position `at`.
pub fn take_u64(input: &[u8], at: usize) -> (res: Option<(u64, usize)>)
    requires
        at <= input.len(),
    ensures
        match res {
            Some((value, next)) => at <= next <= input.len() && parse_u64(input@.skip(at as int))
                == Some((value, input@.skip(next as int))),
            None => parse_u64(input@.skip(at as int)) is None,
        },
{
    if input.len() - at < 8 {
        return None;
    }
    let value = u64_from_le_bytes(slice_subrange(input, at, at + 8));
    assert(input@.skip(at as int).subrange(0, 8) =~= input@.subrange(at as int, at + 8));
    assert(input@.skip(at as int).skip(8) =~= input@.skip(at + 8));
    Some((value, at + 8))
}

/// Reads the signed integer that starts at the position `at`.
pub fn take_i64(input: &[u8], at: usize) -> (res: Option<(i64, usize)>)
    requires
        at <= input.len(),
    ensures
        match res {
            Some((value, next)) => at <= next <= input.len() && parse_i64(input@.skip(at as int))
                == Some((value, input@.skip(next as int))),
            None => parse_i64(input@.skip(at as int)) is None,
        },
{
    match take_u64(input, at) {
        Some((raw, next)) => {
            let value: i64 = #[verifier::truncate]
            (raw as i64);
            Some((value, next))
        },
        None => None,
    }
}

/// Calls `String::from_utf8` of std. Trusted, as its documentation says:
/// the bytes become a string exactly where they are valid UTF-8, and the
/// string then holds these bytes.
#[verifier::external_body]
fn text_from_utf8(bytes: Vec<u8>) -> (res: Option<String>)
    ensures
        res is Some <==> valid_utf8(bytes@),
        res matches Some(text) ==> encode_utf8(text@) == bytes@,
{
    String::from_utf8(bytes).ok()
}

/// Reads the text that starts at the position `at`.
pub fn take_text(input: &[u8], at: usize) -> (res: Option<(String, usize)>)
    requires
        at <= input.len(),
    ensures
        match res {
            Some((text, next)) => at <= next <= input.len() && parse_text(input@.skip(at as int))
                == Some((text@, input@.skip(next as int))),
            None => parse_text(input@.skip(at as int)) is None,
        },
{
    let (length, start) = match take_u64(input, at) {
        Some(read) => read,
        None => {
            return None;
        },
    };
    let available = input.len() - start;
    if length > available as u64 {
        return None;
    }
    let end = start + length as usize;
    let body = slice_to_vec(slice_subrange(input, start, end));
    proof {
        let rest = input@.skip(start as int);
        assert(rest.subrange(0, length as int) =~= input@.subrange(start as int, end as int));
        assert(rest.skip(length as int) =~= input@.skip(end as int));
    }
    match text_from_utf8(body) {
        Some(text) => {
            proof {
                encode_utf8_decode_utf8(text@);
            }
            Some((text, end))
        },
        None => None,
    }
}

} // verus!
