//! The text of a fetched playlist body: bodies sent with zstd content
//! encoding are decompressed before they are read as UTF-8.
use vstd::prelude::*;
use crate::numbers::{lower, lower_char};
use crate::text::{chars_of, contains_chars, contains_text};
use vstd::utf8::{decode_utf8, valid_utf8};

verus! {

/// What `zstd::stream::decode_all` gives for these bytes: the decompressed
/// bytes, or the text of its error.
pub uninterp spec fn zstd_decoded(data: Seq<u8>) -> Result<Seq<u8>, Seq<char>>;

/// The text of the error that `String::from_utf8` reports for bytes that
/// are no UTF-8.
pub uninterp spec fn utf8_error_text(bytes: Seq<u8>) -> Seq<char>;

/// What `String::from_utf8` gives: the decoded text of valid UTF-8, else
/// its error's text.
pub open spec fn utf8_decoded(bytes: Seq<u8>) -> Result<Seq<char>, Seq<char>> {
    if valid_utf8(bytes) {
        Ok(decode_utf8(bytes))
    } else {
        Err(utf8_error_text(bytes))
    }
}

/// Calls `zstd::stream::decode_all` on the bytes; trusted to give what
/// `zstd_decoded` names (the error as `std::io::Error` displays it).
#[verifier::external_body]
fn zstd_decode(data: &[u8]) -> (r: Result<Vec<u8>, String>)
    ensures
        match r {
            Ok(v) => zstd_decoded(data@) == Ok::<Seq<u8>, Seq<char>>(v@),
            Err(e) => zstd_decoded(data@) == Err::<Seq<u8>, Seq<char>>(e@),
        },
{
    match zstd::stream::decode_all(std::io::Cursor::new(data)) {
        Ok(v) => Ok(v),
        Err(e) => Err(e.to_string()),
    }
}

/// Calls `String::from_utf8`; trusted to succeed exactly on valid UTF-8,
/// giving the characters the bytes encode, and otherwise to report the
/// error that `utf8_error_text` names (as `FromUtf8Error` displays it).
#[verifier::external_body]
fn utf8_text(bytes: Vec<u8>) -> (r: Result<String, String>)
    ensures
        r is Ok <==> valid_utf8(bytes@),
        r matches Ok(s) ==> s@ == decode_utf8(bytes@),
        r matches Err(e) ==> e@ == utf8_error_text(bytes@),
{
    String::from_utf8(bytes).map_err(|e| e.to_string())
}

/// The text with its ASCII letters in lower case.
pub open spec fn ascii_lower(s: Seq<char>) -> Seq<char> {
    s.map_values(|c: char| lower(c))
}

/// A `Content-Encoding` header value (visible ASCII, as `HeaderValue::to_str`
/// hands it out) that names zstd, in any case.
pub open spec fn names_zstd(content_encoding: Seq<char>) -> bool {
    contains_text(ascii_lower(content_encoding), "zstd"@)
}

/// Whether a `Content-Encoding` header value names zstd.
pub fn is_zstd_encoding(content_encoding: &str) -> (r: bool)
    ensures
        r == names_zstd(content_encoding@),
{
    let cs = chars_of(content_encoding);
    let mut low: Vec<char> = Vec::new();
    let mut i: usize = 0;
    while i < cs.len()
        invariant
            i <= cs@.len(),
            cs@ == content_encoding@,
            low@ == ascii_lower(cs@.take(i as int)),
        decreases cs@.len() - i,
    {
        low.push(lower_char(cs[i]));
        i = i + 1;
        assert(low@ =~= ascii_lower(cs@.take(i as int)));
    }
    assert(cs@.take(cs@.len() as int) =~= cs@);
    let z = chars_of("zstd");
    contains_chars(low.as_slice(), z.as_slice())
}

/// The text of a zstd-compressed body: decompressed, then read as UTF-8;
/// the first error met otherwise.
pub open spec fn zstd_body_text(body: Seq<u8>) -> Result<Seq<char>, Seq<char>> {
    match zstd_decoded(body) {
        Ok(bytes) => utf8_decoded(bytes),
        Err(e) => Err(e),
    }
}

/// Decompresses a zstd-encoded body and reads it as UTF-8 text.
pub fn decode_zstd_body(body: &[u8]) -> (r: Result<String, String>)
    ensures
        match r {
            Ok(s) => zstd_body_text(body@) == Ok::<Seq<char>, Seq<char>>(s@),
            Err(e) => zstd_body_text(body@) == Err::<Seq<char>, Seq<char>>(e@),
        },
{
    match zstd_decode(body) {
        Ok(bytes) => utf8_text(bytes),
        Err(e) => Err(e),
    }
}

} // verus!
