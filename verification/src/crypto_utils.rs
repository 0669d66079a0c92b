//! AES-128 segment decryption for `#EXT-X-KEY` streams: the initialisation
//! vector and the decryption call.
use vstd::prelude::*;
use aes::cipher::{block_padding::Pkcs7, BlockDecryptMut, KeyIvInit};
use crate::text::{chars_of, starts_with, starts_with_chars, sub_chars};

verus! {

/// `s` with every leading repetition of the non-empty pattern `p` removed
/// (`str::trim_start_matches` with a string pattern).
pub open spec fn strip_prefix_all(s: Seq<char>, p: Seq<char>) -> Seq<char>
    decreases s.len(),
{
    if p.len() > 0 && starts_with(s, p) {
        strip_prefix_all(s.skip(p.len() as int), p)
    } else {
        s
    }
}

/// The value of a hexadecimal digit.
pub open spec fn hex_value(c: char) -> int {
    if '0' <= c && c <= '9' {
        c as int - '0' as int
    } else if 'a' <= c && c <= 'f' {
        c as int - 'a' as int + 10
    } else {
        c as int - 'A' as int + 10
    }
}

pub open spec fn is_hex_digit(c: char) -> bool {
    ('0' <= c && c <= '9') || ('a' <= c && c <= 'f') || ('A' <= c && c <= 'F')
}

/// `s` is an even number of hexadecimal digits.
pub open spec fn is_hex_text(s: Seq<char>) -> bool {
    s.len() % 2 == 0 && forall|i: int| 0 <= i < s.len() ==> is_hex_digit(#[trigger] s[i])
}

/// The bytes that the digit pairs of a hex text stand for, high digit first.
pub open spec fn hex_bytes(s: Seq<char>) -> Seq<u8> {
    Seq::new(s.len() / 2, |i: int| (hex_value(s[2 * i]) * 16 + hex_value(s[2 * i + 1])) as u8)
}

/// The text of the error that `hex::decode` reports for a text that is no
/// hex text.
pub uninterp spec fn hex_error_text(s: Seq<char>) -> Seq<char>;

/// Calls `hex::decode`; trusted to succeed exactly on an even number of
/// hex digits (either case), giving one byte per digit pair, and otherwise
/// to report the error that `hex_error_text` names.
#[verifier::external_body]
fn hex_decode(s: &str) -> (r: Result<Vec<u8>, String>)
    ensures
        r is Ok <==> is_hex_text(s@),
        r matches Ok(v) ==> v@ == hex_bytes(s@),
        r matches Err(e) ==> e@ == hex_error_text(s@),
{
    match hex::decode(s) {
        Ok(v) => Ok(v),
        Err(e) => Err(e.to_string()),
    }
}

/// The initialisation vector for a segment with no explicit IV: its media
/// sequence number as a big-endian 32-bit integer in the last four bytes.
pub open spec fn sequence_iv(sequence: u32) -> Seq<u8> {
    Seq::new(
        16,
        |i: int|
            if i < 12 {
                0u8
            } else if i == 12 {
                (sequence as int / 0x1000000) as u8
            } else if i == 13 {
                ((sequence as int / 0x10000) % 256) as u8
            } else if i == 14 {
                ((sequence as int / 0x100) % 256) as u8
            } else {
                (sequence as int % 256) as u8
            },
    )
}

/// At most sixteen bytes, zero-padded in front to sixteen.
pub open spec fn left_padded_iv(bytes: Seq<u8>) -> Seq<u8> {
    Seq::new((16 - bytes.len()) as nat, |i: int| 0u8) + bytes
}

/// The hex digits of an IV attribute: any `0x` prefixes, then any `0X`
/// prefixes, removed.
pub open spec fn iv_digits(s: Seq<char>) -> Seq<char> {
    strip_prefix_all(strip_prefix_all(s, seq!['0', 'x']), seq!['0', 'X'])
}

/// What the IV of a segment is: from the `IV` attribute when there is one
/// (hex, at most sixteen bytes, zero-padded in front), else from the
/// segment's sequence number.
pub open spec fn iv_for(iv_str: Option<Seq<char>>, sequence: u32) -> Result<Seq<u8>, Seq<char>> {
    match iv_str {
        None => Ok(sequence_iv(sequence)),
        Some(s) => {
            let d = iv_digits(s);
            if !is_hex_text(d) {
                Err("Invalid IV hex: "@ + hex_error_text(d))
            } else if hex_bytes(d).len() <= 16 {
                Ok(left_padded_iv(hex_bytes(d)))
            } else {
                Err("IV is too long (must be 16 bytes)"@)
            }
        },
    }
}

fn strip_prefix_all_exec(s: &[char], from: usize, p: &[char]) -> (r: usize)
    requires
        from <= s@.len(),
        p@.len() > 0,
    ensures
        from <= r <= s@.len(),
        strip_prefix_all(s@.skip(from as int), p@) == s@.skip(r as int),
{
    let n = s.len();
    let mut i = from;
    loop
        invariant
            n == s@.len(),
            from <= i <= s@.len(),
            p@.len() > 0,
            strip_prefix_all(s@.skip(from as int), p@) == strip_prefix_all(
                s@.skip(i as int),
                p@,
            ),
        decreases s@.len() - i,
    {
        let rest = sub_chars(s, i, n);
        assert(rest@ =~= s@.skip(i as int));
        if starts_with_chars(rest.as_slice(), p) {
            assert(s@.skip(i as int).skip(p@.len() as int) =~= s@.skip(i + p@.len()));
            i = i + p.len();
        } else {
            return i;
        }
    }
}

fn u8_array_from(v: &Vec<u8>) -> (r: [u8; 16])
    requires
        v@.len() == 16,
    ensures
        r@ == v@,
{
    let r = [
        v[0],
        v[1],
        v[2],
        v[3],
        v[4],
        v[5],
        v[6],
        v[7],
        v[8],
        v[9],
        v[10],
        v[11],
        v[12],
        v[13],
        v[14],
        v[15],
    ];
    assert(r@ =~= v@);
    r
}

/// The AES-128 initialisation vector of a segment: the `IV` attribute's
/// hex value (an optional `0x` prefix, at most sixteen bytes, zero-padded
/// in front) when there is one, else the segment's sequence number as a
/// big-endian integer in the last four bytes.
pub fn get_iv(iv_str: &Option<String>, sequence: u32) -> (r: Result<[u8; 16], String>)
    ensures
        match r {
            Ok(iv) => iv_for(
                match iv_str {
                    Some(s) => Some(s@),
                    None => None,
                },
                sequence,
            ) == Ok::<Seq<u8>, Seq<char>>(iv@),
            Err(e) => iv_for(
                match iv_str {
                    Some(s) => Some(s@),
                    None => None,
                },
                sequence,
            ) == Err::<Seq<u8>, Seq<char>>(e@),
        },
{
    let mut iv: Vec<u8> = Vec::new();
    match iv_str {
        Some(s) => {
            let cs = chars_of(s.as_str());
            let p1 = ['0', 'x'];
            let p2 = ['0', 'X'];
            assert(p1@ =~= seq!['0', 'x']);
            assert(p2@ =~= seq!['0', 'X']);
            assert(cs@.skip(0) =~= cs@);
            let a = strip_prefix_all_exec(cs.as_slice(), 0, &p1);
            let b = strip_prefix_all_exec(cs.as_slice(), a, &p2);
            let digits = sub_chars(cs.as_slice(), b, cs.len());
            assert(digits@ =~= cs@.skip(b as int));
            let clean = crate::text::string_from(&digits);
            let decoded = match hex_decode(clean.as_str()) {
                Ok(v) => v,
                Err(e) => {
                    return Err(String::from_str("Invalid IV hex: ").concat(e.as_str()));
                },
            };
            if decoded.len() <= 16 {
                let pad = 16 - decoded.len();
                let mut i: usize = 0;
                while i < pad
                    invariant
                        i <= pad,
                        iv@ == Seq::new(i as nat, |k: int| 0u8),
                    decreases pad - i,
                {
                    iv.push(0);
                    i = i + 1;
                    assert(iv@ =~= Seq::new(i as nat, |k: int| 0u8));
                }
                let ghost zeros = iv@;
                let mut j: usize = 0;
                while j < decoded.len()
                    invariant
                        j <= decoded@.len(),
                        iv@ == zeros + decoded@.take(j as int),
                    decreases decoded@.len() - j,
                {
                    iv.push(decoded[j]);
                    j = j + 1;
                    assert(iv@ =~= zeros + decoded@.take(j as int));
                }
                assert(decoded@.take(decoded@.len() as int) =~= decoded@);
                assert(iv@ =~= left_padded_iv(decoded@));
                Ok(u8_array_from(&iv))
            } else {
                Err(String::from_str("IV is too long (must be 16 bytes)"))
            }
        },
        None => {
            let mut i: usize = 0;
            while i < 12
                invariant
                    i <= 12,
                    iv@ == Seq::new(i as nat, |k: int| 0u8),
                decreases 12 - i,
            {
                iv.push(0);
                i = i + 1;
                assert(iv@ =~= Seq::new(i as nat, |k: int| 0u8));
            }
            iv.push((sequence / 0x1000000) as u8);
            iv.push(((sequence / 0x10000) % 256) as u8);
            iv.push(((sequence / 0x100) % 256) as u8);
            iv.push((sequence % 256) as u8);
            assert(iv@ =~= sequence_iv(sequence));
            Ok(u8_array_from(&iv))
        },
    }
}

/// What AES-128-CBC decryption with PKCS#7 unpadding gives for `data`
/// under `key` and `iv`: the plaintext, or `None` when the input length or
/// the padding is wrong.
pub uninterp spec fn aes128_cbc_plaintext(data: Seq<u8>, key: Seq<u8>, iv: Seq<u8>) -> Option<
    Seq<u8>,
>;

/// Calls `cbc::Decryptor::<aes::Aes128>::new` and `decrypt_padded_mut` with
/// PKCS#7 padding on a copy of `data`; trusted to give what
/// `aes128_cbc_plaintext` names, the error being the only one those
/// functions report (`UnpadError`, shown by its `Debug` form).
#[verifier::external_body]
fn aes128_cbc_decrypt(data: &[u8], key: &[u8], iv: &[u8; 16]) -> (r: Result<Vec<u8>, String>)
    requires
        key@.len() == 16,
    ensures
        match r {
            Ok(p) => aes128_cbc_plaintext(data@, key@, iv@) == Some(p@),
            Err(e) => aes128_cbc_plaintext(data@, key@, iv@) is None && e@
                == "AES Decryption error: UnpadError"@,
        },
{
    let mut buf = data.to_vec();
    let dec = cbc::Decryptor::<aes::Aes128>::new(key.into(), iv.into());
    match dec.decrypt_padded_mut::<Pkcs7>(&mut buf) {
        Ok(pt) => Ok(pt.to_vec()),
        Err(e) => Err(format!("AES Decryption error: {:?}", e)),
    }
}

/// Decrypts an AES-128-CBC segment with PKCS#7 padding; the key must be
/// sixteen bytes.
pub fn decrypt_aes128(data: &[u8], key: &[u8], iv: &[u8; 16]) -> (r: Result<Vec<u8>, String>)
    requires
        key@.len() == 16,
    ensures
        match r {
            Ok(p) => aes128_cbc_plaintext(data@, key@, iv@) == Some(p@),
            Err(e) => aes128_cbc_plaintext(data@, key@, iv@) is None && e@
                == "AES Decryption error: UnpadError"@,
        },
{
    aes128_cbc_decrypt(data, key, iv)
}

/// The optional text of an IV as plain data.
pub open spec fn opt_text(o: Option<String>) -> Option<Seq<char>> {
    match o {
        Some(s) => Some(s@),
        None => None,
    }
}

/// What an AES-128 segment's body gives once decrypted: the IV's error
/// when its IV cannot be read, an error for a key that is not sixteen
/// bytes, the decryption error when the body's length or padding is wrong,
/// else the plaintext.
pub open spec fn segment_plaintext_of(
    body: Seq<u8>,
    key: Seq<u8>,
    iv_str: Option<Seq<char>>,
    sequence: u32,
) -> Result<Seq<u8>, Seq<char>> {
    match iv_for(iv_str, sequence) {
        Err(e) => Err(e),
        Ok(iv) => if key.len() != 16 {
            Err("AES-128 key must be 16 bytes"@)
        } else {
            match aes128_cbc_plaintext(body, key, iv) {
                Some(p) => Ok(p),
                None => Err("AES Decryption error: UnpadError"@),
            }
        },
    }
}

/// Decrypts the body of an AES-128 segment with the key fetched from its
/// `EXT-X-KEY` URI; its IV comes from the `IV` attribute or, without one,
/// from its sequence number.
pub fn segment_plaintext(body: &[u8], key: &[u8], iv_str: &Option<String>, sequence: u32) -> (r:
    Result<Vec<u8>, String>)
    ensures
        match r {
            Ok(p) => segment_plaintext_of(body@, key@, opt_text(*iv_str), sequence) == Ok::<
                Seq<u8>,
                Seq<char>,
            >(p@),
            Err(e) => segment_plaintext_of(body@, key@, opt_text(*iv_str), sequence) == Err::<
                Seq<u8>,
                Seq<char>,
            >(e@),
        },
{
    let iv = match get_iv(iv_str, sequence) {
        Ok(iv) => iv,
        Err(e) => {
            return Err(e);
        },
    };
    if key.len() != 16 {
        return Err(String::from_str("AES-128 key must be 16 bytes"));
    }
    decrypt_aes128(body, key, &iv)
}

} // verus!
