//! The server id hash that the session server checks a login against: SHA-1
//! over the server id, the shared secret and the public key, written as a
//! signed hexadecimal number.
use crate::json::hex_digit;
use sha1::Digest;
use vstd::prelude::*;
use vstd::utf8::encode_utf8;

verus! {

/// The SHA-1 digest of `data`.
pub uninterp spec fn sha1_of(data: Seq<u8>) -> Seq<u8>;

/// Relies on `sha1::Sha1::digest`: the SHA-1 digest of the bytes, which has
/// twenty bytes.
#[verifier::external_body]
fn sha1_digest(data: &[u8]) -> (r: Vec<u8>)
    ensures
        r@ == sha1_of(data@),
        r@.len() == 20,
{
    sha1::Sha1::digest(data).to_vec()
}

/// `256` to the power `n`.
pub open spec fn pow256(n: nat) -> nat
    decreases n,
{
    if n == 0 {
        1
    } else {
        256 * pow256((n - 1) as nat)
    }
}

/// The number whose big-endian bytes are `b`.
pub open spec fn be_value(b: Seq<u8>) -> nat
    decreases b.len(),
{
    if b.len() == 0 {
        0
    } else {
        (be_value(b.drop_last()) * 256 + b.last()) as nat
    }
}

/// The hexadecimal digits of `n`, most significant first, with no leading zero.
pub open spec fn hex_text(n: nat) -> Seq<char>
    decreases n,
{
    if n < 16 {
        seq![hex_digit(n)]
    } else {
        hex_text(n / 16).push(hex_digit(n % 16))
    }
}

/// The bytes `b` read as a big-endian two's complement number, written in
/// hexadecimal with a leading `-` when negative.
pub open spec fn signed_hex_text(b: Seq<u8>) -> Seq<char> {
    if b.len() > 0 && b[0] >= 128 {
        seq!['-'] + hex_text((pow256(b.len()) - be_value(b)) as nat)
    } else {
        hex_text(be_value(b))
    }
}

/// Relies on `num_bigint::BigInt::from_signed_bytes_be`, which reads the bytes
/// as a big-endian two's complement number, and on its `LowerHex` formatting,
/// which writes the magnitude's lowercase digits after a `-` for a negative
/// number.
#[verifier::external_body]
fn signed_hex(b: &[u8]) -> (r: String)
    ensures
        r@ == signed_hex_text(b@),
{
    format!("{:x}", num_bigint::BigInt::from_signed_bytes_be(b))
}

/// A digest written as the session server expects: a signed hexadecimal number.
pub fn hexdigest(digest: &[u8]) -> (r: String)
    ensures
        r@ == signed_hex_text(digest@),
{
    signed_hex(digest)
}

/// The server id hash of a login: the signed hexadecimal form of the SHA-1 of
/// the server id's UTF-8 bytes, the shared secret and the public key's DER
/// bytes, one after another.
pub fn server_hash(server_id: &str, secret: &[u8], public_key: &[u8]) -> (r: String)
    ensures
        r@ == signed_hex_text(sha1_of(encode_utf8(server_id@) + secret@ + public_key@)),
        sha1_of(encode_utf8(server_id@) + secret@ + public_key@).len() == 20,
        r@.len() >= 1,
        r@[0] == '-' <==> sha1_of(encode_utf8(server_id@) + secret@ + public_key@)[0] >= 128,
{
    let mut data: Vec<u8> = Vec::new();
    data.extend_from_slice(server_id.as_bytes());
    data.extend_from_slice(secret);
    data.extend_from_slice(public_key);
    assert(data@ =~= encode_utf8(server_id@) + secret@ + public_key@);
    let digest = sha1_digest(data.as_slice());
    let r = hexdigest(digest.as_slice());
    proof {
        lemma_hash_sign(digest@);
    }
    r
}

proof fn lemma_hex_text_first(n: nat)
    ensures
        hex_text(n).len() >= 1,
        hex_text(n)[0] != '-',
    decreases n,
{
    if n >= 16 {
        lemma_hex_text_first(n / 16);
    } else {
        assert(hex_digit(n) != '-');
    }
}

/// The hash text starts with `-` exactly when the top bit of the digest is
/// set.
pub proof fn lemma_hash_sign(digest: Seq<u8>)
    requires
        digest.len() > 0,
    ensures
        signed_hex_text(digest).len() >= 1,
        signed_hex_text(digest)[0] == '-' <==> digest[0] >= 128,
{
    if digest[0] >= 128 {
        lemma_hex_text_first((pow256(digest.len()) - be_value(digest)) as nat);
    } else {
        lemma_hex_text_first(be_value(digest));
    }
}

} // verus!
