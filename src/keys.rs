//! The proxy's RSA key, as far as the login exchange uses it: its public half
//! in DER form, and decryption with its private half.
use openssl::error::ErrorStack;
use openssl::pkey::Private;
use openssl::rsa::Rsa;
use crate::protocol::login::opt_bytes;
use vstd::prelude::*;

verus! {

/// The plain text that PKCS#1 v1.5 decryption of `data` with the private half
/// of `key` gives, or none when openssl refuses it.
pub uninterp spec fn rsa_decrypt_of(key: Rsa<Private>, data: Seq<u8>) -> Option<Seq<u8>>;

/// The DER SubjectPublicKeyInfo of the public half of `key`, or none when
/// openssl refuses to write it.
pub uninterp spec fn rsa_der_of(key: Rsa<Private>) -> Option<Seq<u8>>;

#[verifier::external_type_specification]
#[verifier::external_body]
#[verifier::reject_recursive_types(T)]
pub struct ExRsa<T>(Rsa<T>);

#[verifier::external_type_specification]
#[verifier::external_body]
pub struct ExPrivate(Private);

#[verifier::external_type_specification]
#[verifier::external_body]
pub struct ExErrorStack(ErrorStack);

/// Relies on openssl's `Rsa::public_key_to_der`: the public key as a DER
/// SubjectPublicKeyInfo, or openssl's error.
#[verifier::external_body]
fn rsa_public_der(key: &Rsa<Private>) -> (r: Result<Vec<u8>, ErrorStack>)
    ensures
        match r {
            Ok(v) => rsa_der_of(*key) == Some(v@),
            Err(_) => rsa_der_of(*key) is None,
        },
{
    key.public_key_to_der()
}

/// Relies on openssl's `Rsa::private_decrypt` with PKCS#1 v1.5 padding, into a
/// buffer of the key's size (which it asks for); the bytes it reports as
/// decrypted, or openssl's error. It asserts that the input length fits an
/// `i32`.
#[verifier::external_body]
fn rsa_private_decrypt(key: &Rsa<Private>, data: &[u8]) -> (r: Result<Vec<u8>, ErrorStack>)
    requires
        data@.len() <= i32::MAX,
    ensures
        match r {
            Ok(v) => rsa_decrypt_of(*key, data@) == Some(v@),
            Err(_) => rsa_decrypt_of(*key, data@) is None,
        },
{
    let mut buf = vec![0u8; key.size() as usize];
    let n = key.private_decrypt(data, &mut buf, openssl::rsa::Padding::PKCS1)?;
    Ok(buf[..n].to_vec())
}

/// The public half of `key` in DER form, as the encryption request carries it.
pub fn public_key_der(key: &Rsa<Private>) -> (r: Option<Vec<u8>>)
    ensures
        opt_bytes(r) == rsa_der_of(*key),
{
    match rsa_public_der(key) {
        Ok(der) => Some(der),
        Err(_) => None,
    }
}

/// `data` decrypted with the private half of `key`; none when openssl refuses
/// it (bad padding, wrong length).
pub fn private_decrypt(key: &Rsa<Private>, data: &[u8]) -> (r: Option<Vec<u8>>)
    requires
        data@.len() <= i32::MAX,
    ensures
        opt_bytes(r) == rsa_decrypt_of(*key, data@),
{
    match rsa_private_decrypt(key, data) {
        Ok(plain) => Some(plain),
        Err(_) => None,
    }
}

} // verus!
