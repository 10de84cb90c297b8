//! Percent-encoding of strings for use in URLs, and its reverse.
//!
//! Scripts hand over strings of bytes and say whether they are to be read
//! as text or as binary data. Text has to be valid UTF-8, before encoding
//! and after decoding; binary data is taken and given as it comes.

use vstd::prelude::*;
use vstd::string::StrSliceExecFns;
use vstd::string::StringSliceAdditionalSpecFns;
use vstd::utf8::{encode_utf8, valid_utf8};

verus! {

/// Whether a byte stands for itself in a URL: letters, digits, `-`, `.`,
/// `_` and `~`.
pub open spec fn is_unreserved(b: u8) -> bool {
    (0x30 <= b <= 0x39) || (0x41 <= b <= 0x5a) || (0x61 <= b <= 0x7a) || b == 0x2d || b == 0x2e
        || b == 0x5f || b == 0x7e
}

/// The upper-case hexadecimal digit for a number below sixteen.
pub open spec fn hex_digit(n: u8) -> u8 {
    if n < 10 {
        (0x30 + n) as u8
    } else {
        (0x41 + n - 10) as u8
    }
}

/// One byte, percent-encoded: itself, or `%` and its two hexadecimal digits.
pub open spec fn encoded_byte(b: u8) -> Seq<u8> {
    if is_unreserved(b) {
        seq![b]
    } else {
        seq![0x25u8, hex_digit(b / 16), hex_digit(b % 16)]
    }
}

/// A string of bytes, percent-encoded byte by byte.
pub open spec fn percent_encoded(data: Seq<u8>) -> Seq<u8>
    decreases data.len(),
{
    if data.len() == 0 {
        Seq::empty()
    } else {
        percent_encoded(data.drop_last()) + encoded_byte(data.last())
    }
}

/// What `urlencoding::decode_binary` gives for a string of bytes: the
/// string with each well-formed `%xx` replaced by the byte it stands for.
pub uninterp spec fn percent_decoded(data: Seq<u8>) -> Seq<u8>;

/// Why a string could not be encoded or decoded as text.
#[derive(Debug, Clone, Copy, PartialEq, Eq, Structural)]
pub enum UrlError {
    /// The string handed over is not valid UTF-8.
    InvalidUtf8,
    /// The decoded string is not valid UTF-8.
    InvalidEncoding,
}

/// Calls `core::str::from_utf8`, which accepts a string of bytes as text
/// exactly when the bytes are valid UTF-8 and then gives the same bytes
/// back as a `str`.
#[verifier::external_body]
fn str_from_utf8(data: &[u8]) -> (text: Option<&str>)
    ensures
        text is Some <==> valid_utf8(data@),
        text is Some ==> text->Some_0.spec_bytes() == data@,
{
    core::str::from_utf8(data).ok()
}

/// Calls `urlencoding::encode_binary`, which percent-encodes every byte
/// except letters, digits, `-`, `_`, `.` and `~`, with upper-case
/// hexadecimal digits.
#[verifier::external_body]
fn encode_binary(data: &[u8]) -> (encoded: String)
    ensures
        encode_utf8(encoded@) == percent_encoded(data@),
{
    urlencoding::encode_binary(data).into_owned()
}

/// Calls `urlencoding::encode`, which percent-encodes the bytes of a text
/// as `urlencoding::encode_binary` does.
#[verifier::external_body]
fn encode(text: &str) -> (encoded: String)
    ensures
        encode_utf8(encoded@) == percent_encoded(text.spec_bytes()),
{
    urlencoding::encode(text).into_owned()
}

/// Calls `urlencoding::decode_binary`. Its result depends on the bytes
/// alone and is named, not described.
#[verifier::external_body]
fn decode_binary(data: &[u8]) -> (decoded: Vec<u8>)
    ensures
        decoded@ == percent_decoded(data@),
{
    urlencoding::decode_binary(data).into_owned()
}

/// Calls `urlencoding::decode`, which decodes the bytes of the text as
/// `urlencoding::decode_binary` does and gives them back as a text where
/// they are valid UTF-8, and an error where they are not.
#[verifier::external_body]
fn decode(text: &str) -> (decoded: Option<String>)
    ensures
        decoded is Some <==> valid_utf8(percent_decoded(text.spec_bytes())),
        decoded is Some ==> encode_utf8(decoded->Some_0@) == percent_decoded(text.spec_bytes()),
{
    urlencoding::decode(text).ok().map(|decoded| decoded.into_owned())
}

/// Whether a script asked for binary data: it did only by saying `true`.
pub open spec fn is_binary(as_binary: Option<bool>) -> bool {
    as_binary == Some(true)
}

/// Percent-encodes a string of bytes. Read as text, the string has to be
/// valid UTF-8; read as binary data, every string is encoded.
pub fn net_url_encode(data: &[u8], as_binary: Option<bool>) -> (res: Result<String, UrlError>)
    ensures
        res is Ok <==> is_binary(as_binary) || valid_utf8(data@),
        res is Ok ==> encode_utf8(res->Ok_0@) == percent_encoded(data@),
        res is Err ==> res->Err_0 == UrlError::InvalidUtf8,
{
    if matches!(as_binary, Some(true)) {
        Ok(encode_binary(data))
    } else {
        match str_from_utf8(data) {
            Some(text) => Ok(encode(text)),
            None => Err(UrlError::InvalidUtf8),
        }
    }
}

/// What decoding as text answers for what `urlencoding::decode` gave.
pub fn decoded_text(decoded: Option<String>) -> (res: Result<Vec<u8>, UrlError>)
    ensures
        match decoded {
            Some(text) => res is Ok && res->Ok_0@ == encode_utf8(text@),
            None => res == Err::<Vec<u8>, UrlError>(UrlError::InvalidEncoding),
        },
{
    match decoded {
        Some(text) => Ok(text.as_str().as_bytes_vec()),
        None => Err(UrlError::InvalidEncoding),
    }
}

/// What decoding a string of bytes answers.
pub open spec fn url_decoded(data: Seq<u8>, as_binary: Option<bool>) -> Result<Seq<u8>, UrlError> {
    if is_binary(as_binary) {
        Ok(percent_decoded(data))
    } else if !valid_utf8(data) {
        Err(UrlError::InvalidUtf8)
    } else if !valid_utf8(percent_decoded(data)) {
        Err(UrlError::InvalidEncoding)
    } else {
        Ok(percent_decoded(data))
    }
}

/// Decodes a percent-encoded string of bytes. Read as text, the string
/// has to be valid UTF-8 and so has what it decodes to; read as binary
/// data, every string is decoded.
pub fn net_url_decode(data: &[u8], as_binary: Option<bool>) -> (res: Result<Vec<u8>, UrlError>)
    ensures
        match url_decoded(data@, as_binary) {
            Ok(bytes) => res is Ok && res->Ok_0@ == bytes,
            Err(e) => res == Err::<Vec<u8>, UrlError>(e),
        },
{
    if matches!(as_binary, Some(true)) {
        Ok(decode_binary(data))
    } else {
        match str_from_utf8(data) {
            Some(text) => decoded_text(decode(text)),
            None => Err(UrlError::InvalidUtf8),
        }
    }
}

/// A string without a reserved byte is its own encoding.
pub proof fn lemma_unreserved_unchanged(data: Seq<u8>)
    requires
        forall|i: int| 0 <= i < data.len() ==> is_unreserved(#[trigger] data[i]),
    ensures
        percent_encoded(data) == data,
    decreases data.len(),
{
    if data.len() > 0 {
        lemma_unreserved_unchanged(data.drop_last());
        assert(data.drop_last() + seq![data.last()] =~= data);
    }
}

/// An encoded string holds unreserved bytes and `%` only, and is at most
/// three times as long as what it encodes.
pub proof fn lemma_encoded_shape(data: Seq<u8>)
    ensures
        data.len() <= percent_encoded(data).len() <= 3 * data.len(),
        forall|i: int|
            0 <= i < percent_encoded(data).len() ==> is_unreserved(
                #[trigger] percent_encoded(data)[i],
            ) || percent_encoded(data)[i] == 0x25,
    decreases data.len(),
{
    if data.len() > 0 {
        lemma_encoded_shape(data.drop_last());
        let b = data.last();
        assert(is_unreserved(hex_digit(b / 16)));
        assert(is_unreserved(hex_digit(b % 16)));
    }
}

} // verus!
