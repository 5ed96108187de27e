//! Digests and identifiers made from text.

use vstd::prelude::*;
use vstd::string::*;
use vstd::utf8::*;

verus! {

/// The SHA-256 digest of bytes.
pub uninterp spec fn sha256(bytes: Seq<u8>) -> Seq<u8>;

/// `Sha256::digest` of the crate `sha2`: 32 bytes that depend on the input alone.
#[verifier::external_body]
fn sha256_of(bytes: &[u8]) -> (r: Vec<u8>)
    ensures
        r@ == sha256(bytes@),
        r@.len() == 32,
{
    <sha2::Sha256 as sha2::Digest>::digest(bytes).to_vec()
}

pub open spec fn hex_digit(n: nat) -> char {
    if n < 10 {
        (n + 48) as char
    } else {
        (n + 87) as char
    }
}

/// Two small hexadecimal digits for each byte, the high one first.
pub open spec fn hex_text(bytes: Seq<u8>) -> Seq<char>
    decreases bytes.len(),
{
    if bytes.len() == 0 {
        Seq::empty()
    } else {
        hex_text(bytes.drop_last()).push(hex_digit((bytes.last() / 16) as nat)).push(
            hex_digit((bytes.last() % 16) as nat),
        )
    }
}

/// `hex::encode`: the bytes as small hexadecimal digits.
#[verifier::external_body]
fn hex_of(bytes: &Vec<u8>) -> (r: String)
    ensures
        r@ == hex_text(bytes@),
{
    hex::encode(bytes)
}

/// The digest of a text, in hexadecimal.
pub open spec fn hash_text(text: Seq<char>) -> Seq<char> {
    hex_text(sha256(encode_utf8(text)))
}

pub fn short_hash(text: &str) -> (r: String)
    ensures
        r@ == hash_text(text@),
{
    hex_of(&sha256_of(text.as_bytes()))
}

/// The version 5 UUID of a name in the URL name space, in its usual text form.
pub uninterp spec fn url_uuid(name: Seq<char>) -> Seq<char>;

/// `Uuid::new_v5` of the crate `uuid`, under `Uuid::NAMESPACE_URL`: the result
/// depends on the name alone.
#[verifier::external_body]
pub(crate) fn uuid_v5(name: &str) -> (r: String)
    ensures
        r@ == url_uuid(name@),
{
    uuid::Uuid::new_v5(&uuid::Uuid::NAMESPACE_URL, name.as_bytes()).to_string()
}

} // verus!
