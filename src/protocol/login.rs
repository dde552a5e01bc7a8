//! The client-facing half of the login: the verify token and the check of the
//! client's key exchange.
use crate::cipher::SECRET_LEN;
use crate::error::ProxyError;
use crate::json::append_decimal;
use crate::json::decimal_text;
use vstd::prelude::*;
use vstd::slice::slice_to_vec;
use vstd::utf8::encode_utf8;

verus! {

/// Relies on `rand::random::<i64>`: a number from the thread's generator.
#[verifier::external_body]
fn random_i64() -> (r: i64) {
    rand::random::<i64>()
}

/// The verify token made from the number `v`: its decimal digits in ASCII.
pub open spec fn token_bytes(v: i64) -> Seq<u8> {
    encode_utf8(decimal_text(v as int))
}

/// The verify token made from `v`.
pub fn token_from(v: i64) -> (r: Vec<u8>)
    ensures
        r@ == token_bytes(v),
{
    let mut text = String::new();
    append_decimal(&mut text, v);
    slice_to_vec(text.as_str().as_bytes())
}

/// A fresh verify token, made from a random number.
pub fn random_token() -> (r: Vec<u8>)
    ensures
        exists|v: i64| r@ == token_bytes(v),
{
    let v = random_i64();
    token_from(v)
}

/// What the key exchange yields, given the token that was sent and what the
/// client's two fields decrypted to: the shared secret, or why the login ends.
pub open spec fn key_exchange_outcome(
    expected: Seq<u8>,
    token: Option<Seq<u8>>,
    secret: Option<Seq<u8>>,
) -> Result<Seq<u8>, ProxyError> {
    match token {
        None => Err(ProxyError::AuthFailed),
        Some(t) => {
            if t != expected {
                Err(ProxyError::AuthFailed)
            } else {
                match secret {
                    None => Err(ProxyError::AuthFailed),
                    Some(s) => {
                        if s.len() != SECRET_LEN {
                            Err(ProxyError::InvalidSecret)
                        } else {
                            Ok(s)
                        }
                    },
                }
            }
        },
    }
}

/// The characters of an optional byte vector.
pub open spec fn opt_bytes(o: Option<Vec<u8>>) -> Option<Seq<u8>> {
    match o {
        Some(v) => Some(v@),
        None => None,
    }
}

/// Whether two byte strings are equal, byte for byte.
pub fn same_bytes(a: &[u8], b: &[u8]) -> (r: bool)
    ensures
        r == (a@ == b@),
{
    if a.len() != b.len() {
        return false;
    }
    let mut i: usize = 0;
    while i < a.len()
        invariant
            a@.len() == b@.len(),
            i <= a@.len(),
            a@.take(i as int) == b@.take(i as int),
        decreases a@.len() - i,
    {
        if a[i] != b[i] {
            assert(a@[i as int] != b@[i as int]);
            return false;
        }
        assert(a@.take((i + 1) as int) =~= a@.take(i as int).push(a@[i as int]));
        assert(b@.take((i + 1) as int) =~= b@.take(i as int).push(b@[i as int]));
        i = i + 1;
    }
    assert(a@ =~= a@.take(a@.len() as int));
    assert(b@ =~= b@.take(b@.len() as int));
    true
}

/// Checks the client's key exchange: the token must come back byte for byte,
/// and the secret must be sixteen bytes.
pub fn check_key_exchange(expected: &[u8], token: Option<Vec<u8>>, secret: Option<Vec<u8>>) -> (r:
    Result<Vec<u8>, ProxyError>)
    ensures
        match key_exchange_outcome(expected@, opt_bytes(token), opt_bytes(secret)) {
            Ok(s) => r matches Ok(x) && x@ == s,
            Err(e) => r matches Err(x) && x == e,
        },
{
    let t = match token {
        None => return Err(ProxyError::AuthFailed),
        Some(t) => t,
    };
    if !same_bytes(t.as_slice(), expected) {
        return Err(ProxyError::AuthFailed);
    }
    match secret {
        None => Err(ProxyError::AuthFailed),
        Some(s) => {
            if s.len() != SECRET_LEN {
                Err(ProxyError::InvalidSecret)
            } else {
                Ok(s)
            }
        },
    }
}

} // verus!
