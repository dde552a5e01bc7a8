//! The packets this proxy reads and writes itself, and the framing of a packet
//! onto the wire.
pub mod handshake;
pub mod login;

use crate::cipher::cfb8_decrypt_of;
use crate::cipher::cfb8_encrypt_of;
use crate::cipher::CipherStream;
use crate::codec::decode_frame;
use crate::codec::encode_frame;
use crate::codec::frame_bytes;
use crate::codec::frame_parse;
use crate::codec::WireError;
use vstd::slice::slice_subrange;
use vstd::slice::slice_to_vec;
use crate::json::json_quote;
use crate::json::json_string;
use crate::util::color::colored_text;
use crate::util::color::Color;
use vstd::prelude::*;
use vstd::string::StringExecFns;

verus! {

/// The most bytes a string field may take: the longest string the protocol
/// carries is a chat message.
pub const MAX_STRING_BYTES: usize = 32767;

/// The most bytes a byte-array field may take: the most for which two arrays
/// and a string still fit the frame's length prefix, an `i32`.
pub const MAX_ARRAY_BYTES: usize = 0x3FFF_0000;

/// The most bytes the server address of a handshake may take.
pub const MAX_ADDRESS_BYTES: usize = 255;

/// A packet kind with the id it travels under.
pub trait Packet: View + Sized {
    /// The packet id of this kind.
    spec fn spec_id() -> i32;

    /// The packet id of this kind.
    fn packet_id() -> (r: i32)
        ensures
            r == Self::spec_id(),
    ;

    /// The packet id this packet travels under.
    fn get_id(&self) -> (r: i32)
        ensures
            r == Self::spec_id(),
    {
        Self::packet_id()
    }
}

/// A packet kind this proxy writes.
pub trait Out: Packet {
    /// The payload bytes of a packet with this view.
    spec fn spec_encode(v: Self::V) -> Seq<u8>;

    /// Whether every field of a packet with this view fits its wire form.
    spec fn spec_writable(v: Self::V) -> bool;

    /// Every writable packet has a payload that fits a frame.
    proof fn lemma_encode_len(v: Self::V)
        requires
            Self::spec_writable(v),
        ensures
            Self::spec_encode(v).len() <= i32::MAX - 5,
    ;

    /// Appends the payload of this packet to `out`.
    fn write(&self, out: &mut Vec<u8>)
        requires
            Self::spec_writable(self@),
        ensures
            final(out)@ == old(out)@ + Self::spec_encode(self@),
    ;
}

/// A packet kind this proxy reads.
pub trait In: Packet {
    /// The packet a payload holds, or why it holds none.
    spec fn spec_parse(payload: Seq<u8>) -> Result<Self::V, WireError>;

    /// Reads a packet of this kind from the whole of `payload`.
    fn read(payload: &[u8]) -> (r: Result<Self, WireError>)
        ensures
            match Self::spec_parse(payload@) {
                Ok(v) => r matches Ok(p) && p@ == v,
                Err(e) => r matches Err(x) && x == e,
            },
    ;
}

/// A packet kind whose payload reader gives back every packet its writer
/// writes.
pub trait RoundTrip: In + Out {
    proof fn lemma_round_trip(v: Self::V)
        requires
            Self::spec_writable(v),
        ensures
            Self::spec_parse(Self::spec_encode(v)) == Ok::<Self::V, WireError>(v),
    ;
}

/// The frame that carries `packet`.
pub fn write_packet<T: Out>(packet: &T) -> (r: Vec<u8>)
    requires
        T::spec_writable(packet@),
    ensures
        r@ == frame_bytes(T::spec_id(), T::spec_encode(packet@)),
{
    let mut payload: Vec<u8> = Vec::new();
    packet.write(&mut payload);
    proof {
        T::lemma_encode_len(packet@);
    }
    let id = packet.get_id();
    encode_frame(id, payload.as_slice())
}

/// The frame that carries `packet`, encrypted as the next bytes of `stream`.
pub fn write_packet_encrypted<T: Out>(packet: &T, stream: &mut CipherStream) -> (r: Vec<u8>)
    requires
        T::spec_writable(packet@),
        old(stream).wf(),
    ensures
        final(stream).wf(),
        r@ == cfb8_encrypt_of(
            old(stream)@.0,
            old(stream)@.1,
            frame_bytes(T::spec_id(), T::spec_encode(packet@)),
        ).0,
        r@.len() == frame_bytes(T::spec_id(), T::spec_encode(packet@)).len(),
        cfb8_decrypt_of(old(stream)@.0, old(stream)@.1, r@) == (
            frame_bytes(T::spec_id(), T::spec_encode(packet@)),
            final(stream)@.1,
        ),
        final(stream)@ == (old(stream)@.0, cfb8_encrypt_of(
            old(stream)@.0,
            old(stream)@.1,
            frame_bytes(T::spec_id(), T::spec_encode(packet@)),
        ).1),
{
    let frame = write_packet(packet);
    stream.encrypt(frame.as_slice())
}

/// What a frame read at the front of `s` holds when a packet of kind `T` is
/// expected: the packet and the number of bytes the frame took.
pub open spec fn receive_spec<T: In>(s: Seq<u8>) -> Result<(T::V, nat), WireError> {
    match frame_parse(s) {
        Ok((id, payload, n)) => {
            if id != T::spec_id() {
                Err(WireError::UnexpectedPacket)
            } else {
                match T::spec_parse(payload) {
                    Ok(v) => Ok((v, n)),
                    Err(e) => Err(e),
                }
            }
        },
        Err(e) => Err(e),
    }
}

/// Reading back the frame that `write_packet` makes gives the same packet,
/// whatever follows the frame, and takes exactly the frame's bytes.
pub proof fn lemma_receive_written<T: RoundTrip>(v: T::V, rest: Seq<u8>)
    requires
        T::spec_writable(v),
    ensures
        receive_spec::<T>(frame_bytes(T::spec_id(), T::spec_encode(v)) + rest) == Ok::<
            (T::V, nat),
            WireError,
        >((v, frame_bytes(T::spec_id(), T::spec_encode(v)).len())),
{
    T::lemma_round_trip(v);
    T::lemma_encode_len(v);
    crate::codec::lemma_varint_round_trip(T::spec_id(), Seq::empty());
    crate::codec::lemma_frame_round_trip(T::spec_id(), T::spec_encode(v), rest);
}

/// Reads the frame that starts at `pos` in `buf` as a packet of kind `T`; the
/// packet and the position just past the frame.
pub fn receive<T: In>(buf: &[u8], pos: usize) -> (r: Result<(T, usize), WireError>)
    requires
        pos <= buf@.len(),
    ensures
        match receive_spec::<T>(buf@.skip(pos as int)) {
            Ok((v, n)) => r matches Ok((p, q)) && p@ == v && q == pos + n,
            Err(e) => r matches Err(x) && x == e,
        },
{
    let (frame, next) = match decode_frame(buf, pos) {
        Ok(f) => f,
        Err(e) => return Err(e),
    };
    if frame.id != T::packet_id() {
        return Err(WireError::UnexpectedPacket);
    }
    match T::read(frame.payload.as_slice()) {
        Ok(p) => Ok((p, next)),
        Err(e) => Err(e),
    }
}

/// The characters of an optional string.
pub open spec fn opt_chars(o: Option<String>) -> Option<Seq<char>> {
    match o {
        Some(s) => Some(s@),
        None => None,
    }
}

/// A chat component as this proxy uses it: plain text, a translation key, or
/// both.
#[derive(Debug)]
pub struct Chat {
    pub text: Option<String>,
    pub translate: Option<String>,
}

impl View for Chat {
    type V = (Option<Seq<char>>, Option<Seq<char>>);

    open spec fn view(&self) -> Self::V {
        (opt_chars(self.text), opt_chars(self.translate))
    }
}

/// The key of the plain-text member.
pub open spec fn text_key() -> Seq<char> {
    seq!['t', 'e', 'x', 't']
}

/// The key of the translation member.
pub open spec fn translate_key() -> Seq<char> {
    seq!['t', 'r', 'a', 'n', 's', 'l', 'a', 't', 'e']
}

/// One member of a JSON object: the quoted key, a colon, the quoted value.
pub open spec fn json_member(key: Seq<char>, value: Seq<char>) -> Seq<char> {
    json_string(key) + seq![':'] + json_string(value)
}

/// The JSON object of a chat component: its members in order, those that are
/// absent left out.
pub open spec fn chat_json(v: (Option<Seq<char>>, Option<Seq<char>>)) -> Seq<char> {
    let t = match v.0 {
        Some(s) => json_member(text_key(), s),
        None => Seq::empty(),
    };
    let r = match v.1 {
        Some(s) => json_member(translate_key(), s),
        None => Seq::empty(),
    };
    let sep = if v.0 is Some && v.1 is Some {
        seq![',']
    } else {
        Seq::empty()
    };
    seq!['{'] + t + sep + r + seq!['}']
}

/// Appends the JSON member `key: value` to `out`.
fn append_member(out: &mut String, key: &str, value: &str)
    ensures
        final(out)@ == old(out)@ + json_member(key@, value@),
{
    let k = json_quote(key);
    let v = json_quote(value);
    proof {
        reveal_strlit(":");
    }
    out.append(k.as_str());
    out.append(":");
    out.append(v.as_str());
    assert(final(out)@ =~= old(out)@ + json_member(key@, value@));
}

impl Chat {
    /// A plain-text component whose `&` colour markers are translated.
    pub fn new(text: &str) -> (r: Chat)
        ensures
            r@ == (Some(colored_text(text@)), None::<Seq<char>>),
    {
        let owned = String::from_str(text);
        Chat { text: Some(owned.colored()), translate: None }
    }

    /// The JSON object of this component.
    pub fn to_json(&self) -> (r: String)
        ensures
            r@ == chat_json(self@),
    {
        proof {
            reveal_strlit("{");
            reveal_strlit("}");
            reveal_strlit(",");
            reveal_strlit("text");
            reveal_strlit("translate");
            assert("text"@ =~= text_key());
            assert("translate"@ =~= translate_key());
        }
        let ghost v = self@;
        let ghost t = match v.0 {
            Some(s) => json_member(text_key(), s),
            None => Seq::empty(),
        };
        let ghost r = match v.1 {
            Some(s) => json_member(translate_key(), s),
            None => Seq::empty(),
        };
        let ghost sep = if v.0 is Some && v.1 is Some {
            seq![',']
        } else {
            Seq::<char>::empty()
        };
        let mut out = String::from_str("{");
        match &self.text {
            Some(x) => append_member(&mut out, "text", x.as_str()),
            None => {},
        }
        assert(out@ =~= seq!['{'] + t);
        if self.text.is_some() && self.translate.is_some() {
            out.append(",");
        }
        assert(out@ =~= seq!['{'] + t + sep);
        match &self.translate {
            Some(x) => append_member(&mut out, "translate", x.as_str()),
            None => {},
        }
        assert(out@ =~= seq!['{'] + t + sep + r);
        out.append("}");
        assert(out@ =~= chat_json(self@));
        out
    }
}

/// Decrypts `data` as the next bytes of `stream` onto the end of `plain`,
/// the plain text received so far and not yet read; then reads the frame at
/// the front of `plain` as a packet of kind `T` and removes that frame's bytes.
/// When `plain` holds no whole packet of that kind, it keeps every byte.
pub fn receive_encrypted<T: In>(data: &[u8], stream: &mut CipherStream, plain: &mut Vec<u8>) -> (r:
    Result<T, WireError>)
    requires
        old(stream).wf(),
    ensures
        final(stream).wf(),
        final(stream)@ == (old(stream)@.0, cfb8_decrypt_of(old(stream)@.0, old(stream)@.1, data@).1),
        ({
            let all = old(plain)@ + cfb8_decrypt_of(old(stream)@.0, old(stream)@.1, data@).0;
            match receive_spec::<T>(all) {
                Ok((v, n)) => r matches Ok(p) && p@ == v && final(plain)@ == all.skip(n as int),
                Err(e) => r matches Err(x) && x == e && final(plain)@ == all,
            }
        }),
{
    let decrypted = stream.decrypt(data);
    plain.extend_from_slice(decrypted.as_slice());
    let ghost all = plain@;
    assert(all == old(plain)@ + cfb8_decrypt_of(old(stream)@.0, old(stream)@.1, data@).0);
    assert(all.skip(0) =~= all);
    proof {
        crate::codec::lemma_frame_parse_len(all);
    }
    match receive::<T>(plain.as_slice(), 0) {
        Ok((p, n)) => {
            let rest = slice_to_vec(slice_subrange(plain.as_slice(), n, plain.len()));
            assert(rest@ =~= all.skip(n as int));
            *plain = rest;
            assert(receive_spec::<T>(all) matches Ok((v, m)) && p@ == v && m == n);
            Ok(p)
        },
        Err(e) => {
            assert(receive_spec::<T>(all) matches Err(x) && x == e);
            Err(e)
        },
    }
}

/// A packet that one end writes encrypted, read by an end that stands at the
/// same key and register and holds no unread plain text, is the same packet:
/// its frame is read whole, nothing is left unread, and both ends then stand at
/// the same register.
pub proof fn lemma_encrypted_round_trip<T: RoundTrip>(
    v: T::V,
    key: Seq<u8>,
    register: Seq<u8>,
    sent: Seq<u8>,
    next: Seq<u8>,
)
    requires
        T::spec_writable(v),
        cfb8_decrypt_of(key, register, sent) == (frame_bytes(T::spec_id(), T::spec_encode(v)), next),
    ensures
        ({
            let all = Seq::<u8>::empty() + cfb8_decrypt_of(key, register, sent).0;
            &&& receive_spec::<T>(all) == Ok::<(T::V, nat), WireError>((v, all.len()))
            &&& all.skip(all.len() as int).len() == 0
            &&& cfb8_decrypt_of(key, register, sent).1 == next
        }),
{
    let f = frame_bytes(T::spec_id(), T::spec_encode(v));
    lemma_receive_written::<T>(v, Seq::empty());
    assert(Seq::<u8>::empty() + f =~= f);
    assert(f + Seq::<u8>::empty() =~= f);
}

} // verus!
