//! The packets of the login state.
use crate::codec::byte_array_bytes;
use crate::codec::byte_array_parse;
use crate::codec::lemma_byte_array_parse_len;
use crate::codec::lemma_byte_array_round_trip;
use crate::codec::lemma_string_parse_len;
use crate::codec::lemma_string_round_trip;
use crate::codec::read_byte_array;
use crate::codec::read_string;
use crate::codec::string_bytes;
use crate::codec::string_parse;
use crate::codec::write_byte_array;
use crate::codec::write_string;
use crate::codec::WireError;
use crate::packet::chat_json;
use crate::packet::Chat;
use crate::packet::In;
use crate::packet::Out;
use crate::packet::RoundTrip;
use crate::packet::Packet;
use crate::packet::MAX_ARRAY_BYTES;
use crate::packet::MAX_STRING_BYTES;
use crate::cipher::SECRET_LEN;
use crate::keys::private_decrypt;
use crate::keys::rsa_decrypt_of;
use crate::protocol::login::opt_bytes;
use openssl::pkey::Private;
use openssl::rsa::Rsa;
use vstd::prelude::*;
use vstd::utf8::encode_utf8;

verus! {

/// The first login packet: the name the player logs in with.
#[derive(Debug)]
pub struct Start {
    pub name: String,
}

impl View for Start {
    type V = Seq<char>;

    open spec fn view(&self) -> Self::V {
        self.name@
    }
}

impl Packet for Start {
    open spec fn spec_id() -> i32 {
        0
    }

    fn packet_id() -> (r: i32) {
        0
    }
}

impl Out for Start {
    open spec fn spec_encode(v: Self::V) -> Seq<u8> {
        string_bytes(v)
    }

    open spec fn spec_writable(v: Self::V) -> bool {
        encode_utf8(v).len() <= MAX_STRING_BYTES
    }

    proof fn lemma_encode_len(v: Self::V) {
        crate::codec::lemma_varint_round_trip(encode_utf8(v).len() as i32, Seq::empty());
    }

    fn write(&self, out: &mut Vec<u8>) {
        write_string(out, self.name.as_str());
    }
}

impl In for Start {
    open spec fn spec_parse(payload: Seq<u8>) -> Result<Self::V, WireError> {
        match string_parse(payload) {
            Err(e) => Err(e),
            Ok((name, n)) => {
                if n == payload.len() {
                    Ok(name)
                } else {
                    Err(WireError::TrailingBytes)
                }
            },
        }
    }

    fn read(payload: &[u8]) -> (r: Result<Self, WireError>) {
        assert(payload@.skip(0) =~= payload@);
        let (name, n) = match read_string(payload, 0) {
            Ok(x) => x,
            Err(e) => return Err(e),
        };
        if n != payload.len() {
            return Err(WireError::TrailingBytes);
        }
        Ok(Start { name })
    }
}

/// A login start read back from its payload carries the same name.
pub proof fn lemma_start_round_trip(v: Seq<char>)
    requires
        <Start as Out>::spec_writable(v),
    ensures
        <Start as In>::spec_parse(<Start as Out>::spec_encode(v)) == Ok::<Seq<char>, WireError>(v),
{
    lemma_string_round_trip(v, Seq::empty());
    assert(string_bytes(v) + Seq::<u8>::empty() =~= string_bytes(v));
}

/// The server's request that the client encrypt: a server id, the server's
/// public key in DER form, and the token the client must send back.
#[derive(Debug)]
pub struct EncryptionRequest {
    pub id: String,
    pub public_key: Vec<u8>,
    pub token: Vec<u8>,
}

impl View for EncryptionRequest {
    type V = (Seq<char>, Seq<u8>, Seq<u8>);

    open spec fn view(&self) -> Self::V {
        (self.id@, self.public_key@, self.token@)
    }
}

impl Packet for EncryptionRequest {
    open spec fn spec_id() -> i32 {
        1
    }

    fn packet_id() -> (r: i32) {
        1
    }
}

impl Out for EncryptionRequest {
    open spec fn spec_encode(v: Self::V) -> Seq<u8> {
        string_bytes(v.0) + byte_array_bytes(v.1) + byte_array_bytes(v.2)
    }

    open spec fn spec_writable(v: Self::V) -> bool {
        &&& encode_utf8(v.0).len() <= MAX_STRING_BYTES
        &&& v.1.len() <= MAX_ARRAY_BYTES
        &&& v.2.len() <= MAX_ARRAY_BYTES
    }

    proof fn lemma_encode_len(v: Self::V) {
        crate::codec::lemma_varint_round_trip(encode_utf8(v.0).len() as i32, Seq::empty());
        crate::codec::lemma_varint_round_trip(v.1.len() as i32, Seq::empty());
        crate::codec::lemma_varint_round_trip(v.2.len() as i32, Seq::empty());
    }

    fn write(&self, out: &mut Vec<u8>) {
        write_string(out, self.id.as_str());
        write_byte_array(out, self.public_key.as_slice());
        write_byte_array(out, self.token.as_slice());
        assert(final(out)@ =~= old(out)@ + Self::spec_encode(self@));
    }
}

impl In for EncryptionRequest {
    open spec fn spec_parse(payload: Seq<u8>) -> Result<Self::V, WireError> {
        match string_parse(payload) {
            Err(e) => Err(e),
            Ok((id, n1)) => match byte_array_parse(payload.skip(n1 as int)) {
                Err(e) => Err(e),
                Ok((key, n2)) => match byte_array_parse(payload.skip((n1 + n2) as int)) {
                    Err(e) => Err(e),
                    Ok((token, n3)) => {
                        if n1 + n2 + n3 == payload.len() {
                            Ok((id, key, token))
                        } else {
                            Err(WireError::TrailingBytes)
                        }
                    },
                },
            },
        }
    }

    fn read(payload: &[u8]) -> (r: Result<Self, WireError>) {
        assert(payload@.skip(0) =~= payload@);
        proof {
            lemma_string_parse_len(payload@);
        }
        let (id, pos1) = match read_string(payload, 0) {
            Ok(x) => x,
            Err(e) => return Err(e),
        };
        proof {
            lemma_byte_array_parse_len(payload@.skip(pos1 as int));
        }
        let (public_key, pos2) = match read_byte_array(payload, pos1) {
            Ok(x) => x,
            Err(e) => return Err(e),
        };
        proof {
            lemma_byte_array_parse_len(payload@.skip(pos2 as int));
        }
        let (token, pos3) = match read_byte_array(payload, pos2) {
            Ok(x) => x,
            Err(e) => return Err(e),
        };
        if pos3 != payload.len() {
            return Err(WireError::TrailingBytes);
        }
        Ok(EncryptionRequest { id, public_key, token })
    }
}

/// An encryption request read back from its payload is the same request.
pub proof fn lemma_encryption_request_round_trip(v: (Seq<char>, Seq<u8>, Seq<u8>))
    requires
        <EncryptionRequest as Out>::spec_writable(v),
    ensures
        <EncryptionRequest as In>::spec_parse(<EncryptionRequest as Out>::spec_encode(v)) == Ok::<
            (Seq<char>, Seq<u8>, Seq<u8>),
            WireError,
        >(v),
{
    let a = string_bytes(v.0);
    let b = byte_array_bytes(v.1);
    let c = byte_array_bytes(v.2);
    let s = a + b + c;
    lemma_string_round_trip(v.0, b + c);
    assert(s =~= a + (b + c));
    assert(s.skip(a.len() as int) =~= b + c);
    lemma_byte_array_round_trip(v.1, c);
    assert(s.skip((a.len() + b.len()) as int) =~= c + Seq::<u8>::empty());
    lemma_byte_array_round_trip(v.2, Seq::empty());
}

/// The client's answer to an encryption request: the shared secret and the
/// token, each encrypted with the server's public key.
#[derive(Debug)]
pub struct EncryptionResponse {
    pub secret: Vec<u8>,
    pub token: Vec<u8>,
}

impl View for EncryptionResponse {
    type V = (Seq<u8>, Seq<u8>);

    open spec fn view(&self) -> Self::V {
        (self.secret@, self.token@)
    }
}

impl Packet for EncryptionResponse {
    open spec fn spec_id() -> i32 {
        1
    }

    fn packet_id() -> (r: i32) {
        1
    }
}

impl Out for EncryptionResponse {
    open spec fn spec_encode(v: Self::V) -> Seq<u8> {
        byte_array_bytes(v.0) + byte_array_bytes(v.1)
    }

    open spec fn spec_writable(v: Self::V) -> bool {
        v.0.len() <= MAX_ARRAY_BYTES && v.1.len() <= MAX_ARRAY_BYTES
    }

    proof fn lemma_encode_len(v: Self::V) {
        crate::codec::lemma_varint_round_trip(v.0.len() as i32, Seq::empty());
        crate::codec::lemma_varint_round_trip(v.1.len() as i32, Seq::empty());
    }

    fn write(&self, out: &mut Vec<u8>) {
        write_byte_array(out, self.secret.as_slice());
        write_byte_array(out, self.token.as_slice());
        assert(final(out)@ =~= old(out)@ + Self::spec_encode(self@));
    }
}

impl In for EncryptionResponse {
    open spec fn spec_parse(payload: Seq<u8>) -> Result<Self::V, WireError> {
        match byte_array_parse(payload) {
            Err(e) => Err(e),
            Ok((secret, n1)) => match byte_array_parse(payload.skip(n1 as int)) {
                Err(e) => Err(e),
                Ok((token, n2)) => {
                    if n1 + n2 == payload.len() {
                        Ok((secret, token))
                    } else {
                        Err(WireError::TrailingBytes)
                    }
                },
            },
        }
    }

    fn read(payload: &[u8]) -> (r: Result<Self, WireError>) {
        assert(payload@.skip(0) =~= payload@);
        proof {
            lemma_byte_array_parse_len(payload@);
        }
        let (secret, pos1) = match read_byte_array(payload, 0) {
            Ok(x) => x,
            Err(e) => return Err(e),
        };
        proof {
            lemma_byte_array_parse_len(payload@.skip(pos1 as int));
        }
        let (token, pos2) = match read_byte_array(payload, pos1) {
            Ok(x) => x,
            Err(e) => return Err(e),
        };
        if pos2 != payload.len() {
            return Err(WireError::TrailingBytes);
        }
        Ok(EncryptionResponse { secret, token })
    }
}

/// The shared secret that `data` decrypts to with `key`: only a plain text of
/// exactly sixteen bytes is one.
pub open spec fn secret_of(key: Rsa<Private>, data: Seq<u8>) -> Option<Seq<u8>> {
    match rsa_decrypt_of(key, data) {
        Some(p) => {
            if p.len() == SECRET_LEN {
                Some(p)
            } else {
                None
            }
        },
        None => None,
    }
}

impl EncryptionResponse {
    /// The verify token, decrypted with the proxy's private key; none when it
    /// cannot be decrypted.
    pub fn decrypt_token(&self, key: &Rsa<Private>) -> (r: Option<Vec<u8>>)
        requires
            self.token@.len() <= i32::MAX,
        ensures
            opt_bytes(r) == rsa_decrypt_of(*key, self.token@),
    {
        private_decrypt(key, self.token.as_slice())
    }

    /// The shared secret, decrypted with the proxy's private key; none when it
    /// cannot be decrypted or is not sixteen bytes long.
    pub fn decrypt_secret(&self, key: &Rsa<Private>) -> (r: Option<Vec<u8>>)
        requires
            self.secret@.len() <= i32::MAX,
        ensures
            opt_bytes(r) == secret_of(*key, self.secret@),
            r matches Some(v) ==> v@.len() == SECRET_LEN,
    {
        match private_decrypt(key, self.secret.as_slice()) {
            Some(plain) => {
                if plain.len() == SECRET_LEN {
                    Some(plain)
                } else {
                    None
                }
            },
            None => None,
        }
    }
}

/// An encryption response read back from its payload is the same response.
pub proof fn lemma_encryption_response_round_trip(v: (Seq<u8>, Seq<u8>))
    requires
        <EncryptionResponse as Out>::spec_writable(v),
    ensures
        <EncryptionResponse as In>::spec_parse(<EncryptionResponse as Out>::spec_encode(v)) == Ok::<
            (Seq<u8>, Seq<u8>),
            WireError,
        >(v),
{
    let a = byte_array_bytes(v.0);
    let b = byte_array_bytes(v.1);
    let s = a + b;
    lemma_byte_array_round_trip(v.0, b);
    assert(s.skip(a.len() as int) =~= b + Seq::<u8>::empty());
    lemma_byte_array_round_trip(v.1, Seq::empty());
}

/// The end of a successful login: the player's UUID and name.
#[derive(Debug)]
pub struct Success {
    pub uuid: String,
    pub name: String,
}

impl View for Success {
    type V = (Seq<char>, Seq<char>);

    open spec fn view(&self) -> Self::V {
        (self.uuid@, self.name@)
    }
}

impl Packet for Success {
    open spec fn spec_id() -> i32 {
        2
    }

    fn packet_id() -> (r: i32) {
        2
    }
}

impl Out for Success {
    open spec fn spec_encode(v: Self::V) -> Seq<u8> {
        string_bytes(v.0) + string_bytes(v.1)
    }

    open spec fn spec_writable(v: Self::V) -> bool {
        encode_utf8(v.0).len() <= MAX_STRING_BYTES && encode_utf8(v.1).len() <= MAX_STRING_BYTES
    }

    proof fn lemma_encode_len(v: Self::V) {
        crate::codec::lemma_varint_round_trip(encode_utf8(v.0).len() as i32, Seq::empty());
        crate::codec::lemma_varint_round_trip(encode_utf8(v.1).len() as i32, Seq::empty());
    }

    fn write(&self, out: &mut Vec<u8>) {
        write_string(out, self.uuid.as_str());
        write_string(out, self.name.as_str());
        assert(final(out)@ =~= old(out)@ + Self::spec_encode(self@));
    }
}

impl In for Success {
    open spec fn spec_parse(payload: Seq<u8>) -> Result<Self::V, WireError> {
        match string_parse(payload) {
            Err(e) => Err(e),
            Ok((uuid, n1)) => match string_parse(payload.skip(n1 as int)) {
                Err(e) => Err(e),
                Ok((name, n2)) => {
                    if n1 + n2 == payload.len() {
                        Ok((uuid, name))
                    } else {
                        Err(WireError::TrailingBytes)
                    }
                },
            },
        }
    }

    fn read(payload: &[u8]) -> (r: Result<Self, WireError>) {
        assert(payload@.skip(0) =~= payload@);
        proof {
            lemma_string_parse_len(payload@);
        }
        let (uuid, pos1) = match read_string(payload, 0) {
            Ok(x) => x,
            Err(e) => return Err(e),
        };
        proof {
            lemma_string_parse_len(payload@.skip(pos1 as int));
        }
        let (name, pos2) = match read_string(payload, pos1) {
            Ok(x) => x,
            Err(e) => return Err(e),
        };
        if pos2 != payload.len() {
            return Err(WireError::TrailingBytes);
        }
        Ok(Success { uuid, name })
    }
}

/// A login success read back from its payload is the same packet.
pub proof fn lemma_success_round_trip(v: (Seq<char>, Seq<char>))
    requires
        <Success as Out>::spec_writable(v),
    ensures
        <Success as In>::spec_parse(<Success as Out>::spec_encode(v)) == Ok::<
            (Seq<char>, Seq<char>),
            WireError,
        >(v),
{
    let a = string_bytes(v.0);
    let b = string_bytes(v.1);
    let s = a + b;
    lemma_string_round_trip(v.0, b);
    assert(s.skip(a.len() as int) =~= b + Seq::<u8>::empty());
    lemma_string_round_trip(v.1, Seq::empty());
}

/// The server's refusal of a login, with the reason as a chat component.
#[derive(Debug)]
pub struct Disconnect {
    pub chat: Chat,
}

impl View for Disconnect {
    type V = (Option<Seq<char>>, Option<Seq<char>>);

    open spec fn view(&self) -> Self::V {
        self.chat@
    }
}

impl Packet for Disconnect {
    open spec fn spec_id() -> i32 {
        0
    }

    fn packet_id() -> (r: i32) {
        0
    }
}

impl Out for Disconnect {
    open spec fn spec_encode(v: Self::V) -> Seq<u8> {
        string_bytes(chat_json(v))
    }

    open spec fn spec_writable(v: Self::V) -> bool {
        encode_utf8(chat_json(v)).len() <= MAX_STRING_BYTES
    }

    proof fn lemma_encode_len(v: Self::V) {
        crate::codec::lemma_varint_round_trip(encode_utf8(chat_json(v)).len() as i32, Seq::empty());
    }

    fn write(&self, out: &mut Vec<u8>) {
        let text = self.chat.to_json();
        write_string(out, text.as_str());
    }
}

impl Disconnect {
    /// Whether the reason's JSON fits a string field.
    pub fn fits(&self) -> (r: bool)
        ensures
            r == <Disconnect as Out>::spec_writable(self@),
    {
        let text = self.chat.to_json();
        text.as_str().as_bytes().len() <= MAX_STRING_BYTES
    }
}

impl RoundTrip for Start {
    proof fn lemma_round_trip(v: Self::V) {
        lemma_start_round_trip(v);
    }
}

impl RoundTrip for EncryptionRequest {
    proof fn lemma_round_trip(v: Self::V) {
        lemma_encryption_request_round_trip(v);
    }
}

impl RoundTrip for EncryptionResponse {
    proof fn lemma_round_trip(v: Self::V) {
        lemma_encryption_response_round_trip(v);
    }
}

impl RoundTrip for Success {
    proof fn lemma_round_trip(v: Self::V) {
        lemma_success_round_trip(v);
    }
}

} // verus!
