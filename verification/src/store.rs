//! Naming rules of the image store.
//!
//! Every accepted image is persisted under a reversible encoding of its
//! source reference: the URL-safe base64 form of the reference's bytes,
//! followed by the storage format's extension.  Reversibility lets a later
//! run recover the reference from a file name alone and reconcile the
//! ledger with what is actually on disk.

use base64::Engine;
use vstd::prelude::*;
use vstd::string::StrSliceExecFns;
use vstd::string::StringExecFns;
use vstd::utf8::{decode_utf8, encode_utf8, valid_utf8};

use crate::text::{find_last_char, is_last_of, last_index_of};

verus! {

/// The URL-safe, unpadded base64 encoding of `b`: a function of the bytes
/// alone.
pub uninterp spec fn b64url_of(b: Seq<u8>) -> Seq<char>;

/// What the base64 decoder yields on `s`, if `s` is decodable: a function
/// of the characters alone.
pub uninterp spec fn b64url_decode_of(s: Seq<char>) -> Option<Seq<u8>>;

/// A character of the URL-safe base64 alphabet.
pub open spec fn b64url_char(c: char) -> bool {
    ('A' <= c && c <= 'Z') || ('a' <= c && c <= 'z') || ('0' <= c && c <= '9') || c == '-' || c
        == '_'
}

/// Relies on `base64::prelude::BASE64_URL_SAFE_NO_PAD.encode`: RFC 4648
/// URL-safe alphabet (letters, digits, `-`, `_`) without padding, four
/// characters for every three bytes rounded up, and decodable back to the
/// input (decoding inverts encoding per RFC 4648).
#[verifier::external_body]
pub fn b64url_encode(b: &[u8]) -> (r: String)
    ensures
        r@ == b64url_of(b@),
        r@.len() == (b@.len() * 4 + 2) / 3,
        forall|i: int| 0 <= i < r@.len() ==> b64url_char(#[trigger] r@[i]),
        b64url_decode_of(r@) == Some(b@),
{
    base64::prelude::BASE64_URL_SAFE_NO_PAD.encode(b)
}

/// Relies on `base64::prelude::BASE64_URL_SAFE_NO_PAD.decode`: a plain
/// decode that fails on malformed text rather than panicking.
#[verifier::external_body]
pub fn b64url_decode(s: &str) -> (r: Option<Vec<u8>>)
    ensures
        match r {
            Some(v) => b64url_decode_of(s@) == Some(v@),
            None => b64url_decode_of(s@) is None,
        },
{
    base64::prelude::BASE64_URL_SAFE_NO_PAD.decode(s).ok()
}

/// Relies on `String::from_utf8`: succeeds exactly on valid UTF-8 and
/// yields the characters those bytes encode.
#[verifier::external_body]
pub fn bytes_to_string(b: Vec<u8>) -> (r: Option<String>)
    ensures
        r is Some <==> valid_utf8(b@),
        r matches Some(s) ==> s@ == decode_utf8(b@),
{
    String::from_utf8(b).ok()
}

/// The file name an accepted image for `url` is stored under.
pub open spec fn spec_filename(url: Seq<char>) -> Seq<char> {
    b64url_of(encode_utf8(url)) + ".png"@
}

/// The part of a store file name before its final dot, or all of it when
/// it has none.
pub open spec fn spec_stem(name: Seq<char>) -> Seq<char> {
    match last_index_of(name, seq!['.']) {
        Some(i) => name.subrange(0, i),
        None => name,
    }
}

/// The reference a store file name decodes back to, if any.
pub open spec fn spec_name_to_url(name: Seq<char>) -> Option<Seq<char>> {
    match b64url_decode_of(spec_stem(name)) {
        Some(bytes) => if valid_utf8(bytes) {
            Some(decode_utf8(bytes))
        } else {
            None
        },
        None => None,
    }
}

/// Build the store file name for `url`: the reversible encoding of the
/// reference plus the storage format's extension.  The second clause is
/// the naming law: the name decodes back to exactly the reference it was
/// made from.
pub fn make_filename(url: &str) -> (r: String)
    ensures
        r@ == spec_filename(url@),
        spec_name_to_url(r@) == Some(url@),
{
    let mut name = b64url_encode(url.as_bytes());
    let ghost enc = name@;
    name.append(".png");
    proof {
        reveal_strlit(".png");
        assert(name@ =~= spec_filename(url@));
        assert(name@[enc.len() as int] == '.');
        assert(forall|j: int|
            enc.len() < j < name@.len() ==> #[trigger] name@[j] != '.') by {
            assert(name@[enc.len() as int + 1] == 'p');
            assert(name@[enc.len() as int + 2] == 'n');
            assert(name@[enc.len() as int + 3] == 'g');
        }
        assert(forall|j: int| 0 <= j < enc.len() ==> #[trigger] name@[j] != '.') by {
            assert(forall|j: int|
                0 <= j < enc.len() ==> b64url_char(#[trigger] name@[j]));
        }
        assert(seq!['.'][0] == '.');
        assert(is_last_of(name@, seq!['.'], enc.len() as int));
        crate::text::lemma_last_index_of(name@, seq!['.'], enc.len() as int);
        assert(spec_stem(name@) =~= enc);
        vstd::utf8::encode_utf8_valid_utf8(url@);
        vstd::utf8::encode_utf8_decode_utf8(url@);
    }
    name
}

/// Recover the reference a store file was named after, if its stem decodes.
pub fn name_to_url(name: &str) -> (r: Option<String>)
    ensures
        match r {
            Some(u) => spec_name_to_url(name@) == Some(u@),
            None => spec_name_to_url(name@) is None,
        },
{
    let stem = match find_last_char(name, '.') {
        Some(i) => name.substring_char(0, i),
        None => name,
    };
    let bytes = match b64url_decode(stem) {
        Some(b) => b,
        None => {
            return None;
        },
    };
    bytes_to_string(bytes)
}

} // verus!
