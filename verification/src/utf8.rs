use crate::error::Utf8Error;
use vstd::prelude::*;
use vstd::utf8::*;

verus! {

/// The number of bytes of a UTF-8 encoded `char` whose first byte is `b`,
/// or 0 where no well-formed encoding starts with `b`: ASCII bytes are
/// whole characters, continuation bytes and `0xC0`, `0xC1`, `0xF5..=0xFF`
/// start none.
pub open spec fn char_width(b: u8) -> usize {
    if b <= 0x7F {
        1
    } else if b <= 0xC1 {
        0
    } else if b <= 0xDF {
        2
    } else if b <= 0xEF {
        3
    } else if b <= 0xF4 {
        4
    } else {
        0
    }
}

/// Width of the UTF-8 encoded character that starts with byte `b` (0 if
/// none can).
pub fn utf8_char_width(b: u8) -> (w: usize)
    ensures
        w == char_width(b),
{
    if b < 0x80 {
        1
    } else if b < 0xC2 {
        0
    } else if b < 0xE0 {
        2
    } else if b < 0xF0 {
        3
    } else if b < 0xF5 {
        4
    } else {
        0
    }
}

/// The width table agrees with UTF-8: whenever `bytes` start with a
/// well-formed scalar, its length is the width of the first byte. So no
/// well-formed encoding starts with a byte of width 0.
pub proof fn lemma_char_width_is_scalar_length(bytes: Seq<u8>)
    requires
        valid_first_scalar(bytes),
    ensures
        char_width(bytes[0]) == length_of_first_scalar(bytes),
        char_width(bytes[0]) > 0,
{
    let b0 = bytes[0];
    if 0xC0 <= b0 <= 0xC1 {
        let b1 = bytes[1];
        assert(0xC0 <= b0 <= 0xC1 ==> ((((b0 & 0x1F) as u32) << 6u32) | ((b1 & 0x3F) as u32))
            < 0x80) by (bit_vector);
    } else if 0xF5 <= b0 <= 0xF7 {
        let (b1, b2, b3) = (bytes[1], bytes[2], bytes[3]);
        assert(0xF5 <= b0 <= 0xF7 ==> ((((b0 & 0x07) as u32) << 18u32) | (((b1 & 0x3F) as u32)
            << 12u32) | (((b2 & 0x3F) as u32) << 6u32) | ((b3 & 0x3F) as u32)) > 0x10FFFF)
            by (bit_vector);
    }
}

/// Calls `std::str::from_utf8` and keeps only whether it succeeded: `Some`
/// exactly for well-formed UTF-8, holding the characters it encodes.
#[verifier::external_body]
pub(crate) fn str_from_utf8(v: &[u8]) -> (r: Option<&str>)
    ensures
        r is Some <==> valid_utf8(v@),
        r matches Some(s) ==> s@ == decode_utf8(v@),
{
    std::str::from_utf8(v).ok()
}

/// The width table gives the first byte of every `char`'s UTF-8 encoding
/// the length of that encoding, which is the width that UTF-8 decoders
/// (the standard library's among them) give a leading byte.
pub proof fn law_char_width_of_encoding(c: char)
    ensures
        encode_scalar(c as u32).len() >= 1,
        char_width(encode_scalar(c as u32)[0]) == encode_scalar(c as u32).len(),
{
    let chars = seq![c];
    encode_utf8_first_scalar(chars);
    let bytes = encode_utf8(chars);
    assert(chars.drop_first() =~= Seq::<char>::empty());
    assert(encode_utf8(chars.drop_first()) =~= Seq::<u8>::empty());
    assert(bytes =~= encode_scalar(chars[0] as u32) + encode_utf8(chars.drop_first()));
    assert(bytes =~= encode_scalar(c as u32));
    lemma_char_width_is_scalar_length(bytes);
}

/// Whether `e` reports how `bytes`, which are not UTF-8, fail: its
/// `valid_up_to` is the length of their longest well-formed prefix; where
/// `error_len` is `None` the input ends 1 to 3 bytes after that prefix, and
/// where it is `Some(n)` an ill-formed sequence of `n` bytes starts there.
pub open spec fn describes_utf8_failure(bytes: Seq<u8>, e: Utf8Error) -> bool {
    &&& e.valid_up_to <= bytes.len()
    &&& valid_utf8(bytes.take(e.valid_up_to as int))
    &&& forall|j: int| e.valid_up_to < j <= bytes.len() ==> !valid_utf8(#[trigger] bytes.take(j))
    &&& e.error_len matches Some(n) ==> 1 <= n && e.valid_up_to + n <= bytes.len()
    &&& e.error_len is None ==> 1 <= bytes.len() - e.valid_up_to <= 3
}

/// The length of the ill-formed sequence at the point where `bytes` stop
/// being UTF-8, as `std::str::Utf8Error::error_len` reports it: `None`
/// where the input ends inside a character.
pub uninterp spec fn utf8_error_len(bytes: Seq<u8>) -> Option<usize>;

/// Calls `String::from_utf8`: `Ok` exactly for well-formed UTF-8, holding
/// the characters it encodes. On failure the error is `Utf8Error`'s two
/// values as [`describes_utf8_failure`] says (`valid_up_to` is documented as
/// the largest index whose prefix would convert); which length `error_len`
/// reports is left to the name [`utf8_error_len`].
#[verifier::external_body]
pub(crate) fn string_from_utf8(v: Vec<u8>) -> (r: Result<String, Utf8Error>)
    ensures
        r is Ok <==> valid_utf8(v@),
        r matches Ok(s) ==> s@ == decode_utf8(v@),
        r matches Err(e) ==> describes_utf8_failure(v@, e),
        r matches Err(e) ==> e.error_len == utf8_error_len(v@),
{
    match String::from_utf8(v) {
        Ok(s) => Ok(s),
        Err(e) => {
            let u = e.utf8_error();
            Err(Utf8Error { valid_up_to: u.valid_up_to(), error_len: u.error_len() })
        },
    }
}

} // verus!
