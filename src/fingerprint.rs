//! Content fingerprints of feed entries: MD5 over the UTF-8 bytes of the
//! entry title followed by the entry content, written in standard base64.

use vstd::prelude::*;
use vstd::utf8::encode_utf8;
use vstd::string::StrSliceExecFns;
use md5::Digest;
use base64::Engine;

verus! {

/// The MD5 digest of a byte sequence.
pub uninterp spec fn md5_of(data: Seq<u8>) -> Seq<u8>;

/// The character of a six-bit value in the standard base64 alphabet.
pub open spec fn base64_digit(v: int) -> char {
    if v < 26 {
        ((v + 65) as u32) as char
    } else if v < 52 {
        ((v - 26 + 97) as u32) as char
    } else if v < 62 {
        ((v - 52 + 48) as u32) as char
    } else if v == 62 {
        '+'
    } else {
        '/'
    }
}

/// The standard base64 text of a byte sequence: four characters for each
/// group of three bytes, a last short group padded with `=`.
pub open spec fn base64_of(data: Seq<u8>) -> Seq<char>
    decreases data.len(),
{
    if data.len() == 0 {
        Seq::empty()
    } else if data.len() == 1 {
        let x = data[0] as int;
        seq![base64_digit(x / 4), base64_digit((x % 4) * 16), '=', '=']
    } else if data.len() == 2 {
        let x = data[0] as int;
        let y = data[1] as int;
        seq![base64_digit(x / 4), base64_digit((x % 4) * 16 + y / 16), base64_digit((y % 16) * 4), '=']
    } else {
        let x = data[0] as int;
        let y = data[1] as int;
        let z = data[2] as int;
        seq![
            base64_digit(x / 4),
            base64_digit((x % 4) * 16 + y / 16),
            base64_digit((y % 16) * 4 + z / 64),
            base64_digit(z % 64),
        ] + base64_of(data.subrange(3, data.len() as int))
    }
}

/// The bytes that a fingerprint digests: the title, then the content.
pub open spec fn fingerprint_input(title: Seq<char>, content: Seq<char>) -> Seq<u8> {
    encode_utf8(title) + encode_utf8(content)
}

/// The fingerprint of an entry with the given title and content.
pub open spec fn fingerprint_of(title: Seq<char>, content: Seq<char>) -> Seq<char> {
    base64_of(md5_of(fingerprint_input(title, content)))
}

/// Base64 text has four characters for each started group of three bytes.
pub proof fn lemma_base64_len(d: Seq<u8>)
    ensures
        base64_of(d).len() == 4 * ((d.len() + 2) / 3),
    decreases d.len(),
{
    if d.len() >= 3 {
        lemma_base64_len(d.subrange(3, d.len() as int));
    }
}

/// Relies on md5::Md5 (through digest::Digest::digest): a 16-byte digest of
/// the input, which depends on the input bytes alone.
#[verifier::external_body]
fn md5_digest(data: &[u8]) -> (r: Vec<u8>)
    ensures
        r@ == md5_of(data@),
        r@.len() == 16,
{
    md5::Md5::digest(data).to_vec()
}

/// Relies on base64's STANDARD engine `encode`: the standard alphabet, with
/// padding. It panics only where the output length overflows `usize`.
#[verifier::external_body]
fn base64_encode(data: &[u8]) -> (r: String)
    requires
        data@.len() == 16,
    ensures
        r@ == base64_of(data@),
{
    base64::engine::general_purpose::STANDARD.encode(data)
}

/// Computes the fingerprint of an entry from its title and content. Links,
/// authors and timestamps take no part in it. It is always 24 characters
/// long: the base64 text of a 16-byte digest.
pub fn fingerprint(title: &str, content: &str) -> (r: String)
    ensures
        r@ == fingerprint_of(title@, content@),
        r@.len() == 24,
{
    let mut bytes = title.as_bytes_vec();
    let mut rest = content.as_bytes_vec();
    bytes.append(&mut rest);
    let digest = md5_digest(bytes.as_slice());
    proof {
        lemma_base64_len(digest@);
    }
    base64_encode(digest.as_slice())
}

} // verus!
