use crate::cursor::{truncated_at, ByteCursor};
use crate::error::CustomError;
use core::str::Utf8Error;
use vstd::prelude::*;
use vstd::string::StringSliceAdditionalSpecFns;
use vstd::utf8::{
    decode_utf8, encode_utf8, encode_utf8_decode_utf8, is_ascii_chars,
    is_ascii_chars_encode_utf8, is_leading_byte_width_1, partial_valid_utf8,
    partial_valid_utf8_extend_ascii_block, valid_utf8,
};

verus! {

/// The error of `core::str::from_utf8`; nothing is read from it.
#[verifier::external_type_specification]
#[verifier::external_body]
pub struct ExUtf8Error(Utf8Error);

/// `core::str::from_utf8` succeeds exactly on well-formed UTF-8, and the text
/// it hands out is encoded by the very bytes it was given. Believed, not
/// proved.
pub assume_specification[ core::str::from_utf8 ](v: &[u8]) -> (r: Result<&str, Utf8Error>)
    ensures
        r is Ok <==> valid_utf8(v@),
        r is Ok ==> r.unwrap().spec_bytes() == v@,
;

/// The number of digits of an IMEI.
pub const IMEI_LEN: usize = 15;

/// `b` is an ASCII decimal digit.
pub open spec fn spec_is_ascii_digit(b: u8) -> bool {
    0x30 <= b <= 0x39
}

/// Whether `b` is an ASCII decimal digit.
#[verifier::when_used_as_spec(spec_is_ascii_digit)]
pub fn is_ascii_digit(b: u8) -> (r: bool)
    ensures
        r == spec_is_ascii_digit(b),
{
    0x30 <= b && b <= 0x39
}

/// The position of the first byte of `s` in `from..to` that is no ASCII
/// decimal digit; `to` when all of them are digits.
pub open spec fn first_non_digit(s: Seq<u8>, from: int, to: int) -> int
    decreases to - from,
{
    if from >= to {
        to
    } else if !spec_is_ascii_digit(s[from]) {
        from
    } else {
        first_non_digit(s, from + 1, to)
    }
}

/// The `n` bytes of `s` that start at `pos`, each read as the character of
/// the same code.
pub open spec fn ascii_text(s: Seq<u8>, pos: int, n: nat) -> Seq<char> {
    Seq::new(n, |i: int| s[pos + i] as char)
}

/// The fifteen digits of an IMEI read at `pos`: `Truncated` at `pos` when
/// fewer than fifteen bytes are left, `InvalidImei` at the first of them that
/// is no ASCII decimal digit, else the digits as text and the position behind
/// them.
pub open spec fn spec_imei_digits(s: Seq<u8>, pos: int) -> Result<(Seq<char>, int), CustomError> {
    if pos + 15 > s.len() {
        Err(truncated_at(pos))
    } else if first_non_digit(s, pos, pos + 15) < pos + 15 {
        Err(CustomError::InvalidImei { offset: first_non_digit(s, pos, pos + 15) as usize })
    } else {
        Ok((ascii_text(s, pos, 15), pos + 15))
    }
}

/// ASCII bytes are well-formed UTF-8, and the only text they encode is the
/// one that holds, for each byte, the character of the same code.
pub proof fn lemma_ascii_bytes_encode_their_text(bytes: Seq<u8>, text: Seq<char>)
    requires
        forall|i: int| 0 <= i < bytes.len() ==> bytes[i] < 0x80,
    ensures
        valid_utf8(bytes),
        encode_utf8(text) == bytes ==> text == ascii_text(bytes, 0, bytes.len()),
{
    assert(valid_utf8(bytes)) by {
        assert(bytes.subrange(0, 0) =~= Seq::<u8>::empty());
        assert(partial_valid_utf8(bytes, 0));
        assert forall|i: int| 0 <= i < bytes.len() implies #[trigger] is_leading_byte_width_1(
            bytes[i],
        ) by {}
        partial_valid_utf8_extend_ascii_block(bytes, 0, bytes.len() as int);
        assert(bytes.subrange(0, bytes.len() as int) =~= bytes);
    }
    if encode_utf8(text) == bytes {
        let plain = ascii_text(bytes, 0, bytes.len());
        assert(is_ascii_chars(plain));
        is_ascii_chars_encode_utf8(plain);
        assert(encode_utf8(plain) =~= bytes);
        encode_utf8_decode_utf8(plain);
        encode_utf8_decode_utf8(text);
    }
}

/// Reads the fifteen ASCII decimal digits of an IMEI. On failure the cursor
/// has not moved.
pub fn get_imei<'a>(cur: &mut ByteCursor<'a>) -> (r: Result<&'a str, CustomError>)
    requires
        old(cur).wf(),
    ensures
        match spec_imei_digits(old(cur).bytes(), old(cur).position()) {
            Ok((imei, end)) => r is Ok && r.unwrap()@ == imei && final(cur).advanced_to(
                *old(cur),
                end,
            ),
            Err(e) => r is Err && r.unwrap_err() == e && final(cur).advanced_to(
                *old(cur),
                old(cur).position(),
            ),
        },
{
    let ghost s = cur.bytes();
    let ghost start = cur.position();
    let digits = cur.peek_exact(IMEI_LEN)?;
    let mut i: usize = 0;
    while i < IMEI_LEN
        invariant
            cur.wf(),
            cur.bytes() == s,
            cur.position() == start,
            old(cur).bytes() == s,
            old(cur).position() == start,
            start + 15 <= s.len(),
            digits@ == s.subrange(start, start + 15),
            i <= 15,
            first_non_digit(s, start, start + 15) == first_non_digit(s, start + i, start + 15),
            forall|k: int| 0 <= k < i ==> spec_is_ascii_digit(#[trigger] digits@[k]),
        decreases 15 - i,
    {
        if !is_ascii_digit(digits[i]) {
            return Err(CustomError::InvalidImei { offset: cur.offset() + i });
        }
        i += 1;
    }
    cur.take_exact(IMEI_LEN)?;
    match core::str::from_utf8(digits) {
        Ok(imei) => {
            proof {
                lemma_ascii_bytes_encode_their_text(digits@, imei@);
                assert(ascii_text(digits@, 0, 15) =~= ascii_text(s, start, 15));
            }
            Ok(imei)
        },
        Err(_) => {
            // Digits are well-formed UTF-8, so this arm is never taken.
            proof {
                lemma_ascii_bytes_encode_their_text(digits@, Seq::empty());
            }
            Err(CustomError::InvalidImei { offset: cur.offset() })
        },
    }
}

/// The two bytes of `s` at `pos` announce the fifteen digits of an IMEI.
pub open spec fn is_imei_preamble(s: Seq<u8>, pos: int) -> bool {
    s[pos] == 0x00 && s[pos + 1] == 0x0F
}

/// An IMEI handshake read from the start of `s`: the two-byte marker, which
/// has one permitted value, then the fifteen digits.
pub open spec fn spec_imei(s: Seq<u8>) -> Result<(Seq<char>, int), CustomError> {
    if 2 > s.len() {
        Err(truncated_at(0))
    } else if !is_imei_preamble(s, 0) {
        Err(CustomError::InvalidPreamble { offset: 0 })
    } else {
        spec_imei_digits(s, 2)
    }
}

/// Decodes the IMEI handshake from the start of `input`. On success the
/// result is the bytes behind the handshake and the IMEI.
pub fn parse_teltonika_imei(input: &[u8]) -> (r: Result<(&[u8], &str), CustomError>)
    ensures
        match spec_imei(input@) {
            Ok((imei, end)) => {
                &&& r is Ok
                &&& r.unwrap().0@ == input@.subrange(end, input@.len() as int)
                &&& r.unwrap().1@ == imei
            },
            Err(e) => r is Err && r.unwrap_err() == e,
        },
{
    let mut cur = ByteCursor::new(input);
    let marker = cur.peek_exact(2)?;
    if marker[0] != 0x00 || marker[1] != 0x0F {
        return Err(CustomError::InvalidPreamble { offset: 0 });
    }
    cur.take_exact(2)?;
    let imei = get_imei(&mut cur)?;
    Ok((cur.rest(), imei))
}

} // verus!
