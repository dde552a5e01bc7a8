//! The stream cipher of an encrypted connection: AES-128 in CFB-8 mode, whose
//! key and initial vector are both the shared secret.
use aes::cipher::generic_array::GenericArray;
use aes::cipher::BlockDecryptMut;
use aes::cipher::BlockEncryptMut;
use aes::cipher::IvState;
use aes::cipher::KeyIvInit;
use vstd::prelude::*;
use vstd::slice::slice_to_vec;

verus! {

/// The length of the shared secret, of the AES-128 key and of the feedback
/// register.
pub const SECRET_LEN: usize = 16;

/// What AES-128/CFB-8 encryption with `key`, started from register `iv`, makes
/// of `data`: the ciphertext, and the register the cipher stands at after it.
pub uninterp spec fn cfb8_encrypt_of(key: Seq<u8>, iv: Seq<u8>, data: Seq<u8>) -> (Seq<u8>, Seq<u8>);

/// What AES-128/CFB-8 decryption with `key`, started from register `iv`, makes
/// of `data`: the plain text, and the register the cipher stands at after it.
pub uninterp spec fn cfb8_decrypt_of(key: Seq<u8>, iv: Seq<u8>, data: Seq<u8>) -> (Seq<u8>, Seq<u8>);

/// Relies on `cfb8::Encryptor<aes::Aes128>` and its `iv_state`: it encrypts
/// byte by byte, one output byte per input byte, its register stays sixteen
/// bytes, and its `Decryptor` with the same key and register undoes it and
/// ends at the same register (both feed the ciphertext back).
#[verifier::external_body]
fn cfb8_encrypt(key: &[u8], iv: &[u8], data: &[u8]) -> (r: (Vec<u8>, Vec<u8>))
    requires
        key@.len() == SECRET_LEN,
        iv@.len() == SECRET_LEN,
    ensures
        (r.0@, r.1@) == cfb8_encrypt_of(key@, iv@, data@),
        r.0@.len() == data@.len(),
        r.1@.len() == SECRET_LEN,
        cfb8_decrypt_of(key@, iv@, r.0@) == (data@, r.1@),
{
    let mut cipher = cfb8::Encryptor::<aes::Aes128>::new(key.into(), iv.into());
    let mut blocks: Vec<_> = data.iter().map(|b| GenericArray::from([*b])).collect();
    cipher.encrypt_blocks_mut(&mut blocks);
    (blocks.iter().map(|b| b[0]).collect(), cipher.iv_state().to_vec())
}

/// Relies on `cfb8::Decryptor<aes::Aes128>` and its `iv_state`: it decrypts
/// byte by byte, one output byte per input byte, its register stays sixteen
/// bytes, and its `Encryptor` with the same key and register undoes it and
/// ends at the same register (both feed the ciphertext back).
#[verifier::external_body]
fn cfb8_decrypt(key: &[u8], iv: &[u8], data: &[u8]) -> (r: (Vec<u8>, Vec<u8>))
    requires
        key@.len() == SECRET_LEN,
        iv@.len() == SECRET_LEN,
    ensures
        (r.0@, r.1@) == cfb8_decrypt_of(key@, iv@, data@),
        r.0@.len() == data@.len(),
        r.1@.len() == SECRET_LEN,
        cfb8_encrypt_of(key@, iv@, r.0@) == (data@, r.1@),
{
    let mut cipher = cfb8::Decryptor::<aes::Aes128>::new(key.into(), iv.into());
    let mut blocks: Vec<_> = data.iter().map(|b| GenericArray::from([*b])).collect();
    cipher.decrypt_blocks_mut(&mut blocks);
    (blocks.iter().map(|b| b[0]).collect(), cipher.iv_state().to_vec())
}

/// One direction of an encrypted connection: the key, and the register the
/// cipher stands at after every byte so far.
pub struct CipherStream {
    key: Vec<u8>,
    register: Vec<u8>,
}

impl View for CipherStream {
    type V = (Seq<u8>, Seq<u8>);

    closed spec fn view(&self) -> Self::V {
        (self.key@, self.register@)
    }
}

impl CipherStream {
    /// A key and a register of the right length.
    pub open spec fn wf(&self) -> bool {
        self@.0.len() == SECRET_LEN && self@.1.len() == SECRET_LEN
    }

    /// The cipher that a connection installs once the secret is agreed: key
    /// and register are both the secret.
    pub fn new(secret: &[u8]) -> (r: CipherStream)
        requires
            secret@.len() == SECRET_LEN,
        ensures
            r.wf(),
            r@ == (secret@, secret@),
    {
        CipherStream { key: slice_to_vec(secret), register: slice_to_vec(secret) }
    }

    /// Encrypts `data` as the next bytes of this direction.
    pub fn encrypt(&mut self, data: &[u8]) -> (r: Vec<u8>)
        requires
            old(self).wf(),
        ensures
            final(self).wf(),
            r@ == cfb8_encrypt_of(old(self)@.0, old(self)@.1, data@).0,
            r@.len() == data@.len(),
            cfb8_decrypt_of(old(self)@.0, old(self)@.1, r@) == (data@, final(self)@.1),
            final(self)@ == (old(self)@.0, cfb8_encrypt_of(old(self)@.0, old(self)@.1, data@).1),
    {
        let (out, next) = cfb8_encrypt(self.key.as_slice(), self.register.as_slice(), data);
        self.register = next;
        out
    }

    /// Decrypts `data` as the next bytes of this direction.
    pub fn decrypt(&mut self, data: &[u8]) -> (r: Vec<u8>)
        requires
            old(self).wf(),
        ensures
            final(self).wf(),
            r@ == cfb8_decrypt_of(old(self)@.0, old(self)@.1, data@).0,
            r@.len() == data@.len(),
            cfb8_encrypt_of(old(self)@.0, old(self)@.1, r@) == (data@, final(self)@.1),
            final(self)@ == (old(self)@.0, cfb8_decrypt_of(old(self)@.0, old(self)@.1, data@).1),
    {
        let (out, next) = cfb8_decrypt(self.key.as_slice(), self.register.as_slice(), data);
        self.register = next;
        out
    }
}

} // verus!
