//! The packets of the handshaking and status states.
use crate::codec::long_bytes;
use crate::codec::long_parse;
use crate::codec::read_long;
use crate::codec::read_string;
use crate::codec::read_ushort;
use crate::codec::read_varint;
use crate::codec::string_bytes;
use crate::codec::string_parse;
use crate::codec::ushort_bytes;
use crate::codec::ushort_parse;
use crate::codec::varint_bytes;
use crate::codec::varint_parse;
use crate::codec::write_long;
use crate::codec::write_string;
use crate::codec::write_ushort;
use crate::codec::write_varint;
use crate::codec::lemma_long_round_trip;
use crate::codec::lemma_string_round_trip;
use crate::codec::lemma_ushort_round_trip;
use crate::codec::lemma_varint_round_trip;
use crate::codec::WireError;
use crate::packet;
use crate::packet::In;
use crate::packet::Out;
use crate::packet::RoundTrip;
use crate::packet::MAX_ADDRESS_BYTES;
use crate::json::append_decimal;
use crate::json::decimal_text;
use crate::json::json_quote;
use crate::json::json_string;
use crate::player::uuid_string;
use crate::player::uuid_text;
use crate::player::Player;
use vstd::prelude::*;
use vstd::string::StringExecFns;
use vstd::utf8::encode_utf8;

verus! {

/// The first packet of every connection: the client's protocol version, the
/// address and port it dialled, and the state it asks for next (1 for status,
/// 2 for login).
#[derive(Debug)]
pub struct Packet {
    pub version: i32,
    pub address: String,
    pub port: u16,
    pub next_state: i32,
}

impl View for Packet {
    type V = (i32, Seq<char>, u16, i32);

    open spec fn view(&self) -> Self::V {
        (self.version, self.address@, self.port, self.next_state)
    }
}

impl packet::Packet for Packet {
    open spec fn spec_id() -> i32 {
        0
    }

    fn packet_id() -> (r: i32) {
        0
    }
}

/// Whether a handshake asks for status (1) or login (2) and names an address
/// of at most 255 bytes.
pub open spec fn valid_handshake(v: (i32, Seq<char>, u16, i32)) -> bool {
    (v.3 == 1 || v.3 == 2) && encode_utf8(v.1).len() <= MAX_ADDRESS_BYTES
}

impl Out for Packet {
    open spec fn spec_encode(v: Self::V) -> Seq<u8> {
        varint_bytes(v.0) + string_bytes(v.1) + ushort_bytes(v.2) + varint_bytes(v.3)
    }

    open spec fn spec_writable(v: Self::V) -> bool {
        valid_handshake(v)
    }

    proof fn lemma_encode_len(v: Self::V) {
        crate::codec::lemma_varint_round_trip(v.0, Seq::empty());
        crate::codec::lemma_varint_round_trip(v.3, Seq::empty());
        crate::codec::lemma_varint_round_trip(encode_utf8(v.1).len() as i32, Seq::empty());
    }

    fn write(&self, out: &mut Vec<u8>) {
        write_varint(out, self.version);
        write_string(out, self.address.as_str());
        write_ushort(out, self.port);
        write_varint(out, self.next_state);
        assert(final(out)@ =~= old(out)@ + Self::spec_encode(self@));
    }
}

impl In for Packet {
    open spec fn spec_parse(payload: Seq<u8>) -> Result<Self::V, WireError> {
        match varint_parse(payload) {
            Err(e) => Err(e),
            Ok((version, n1)) => match string_parse(payload.skip(n1 as int)) {
                Err(e) => Err(e),
                Ok((address, n2)) => match ushort_parse(payload.skip((n1 + n2) as int)) {
                    Err(e) => Err(e),
                    Ok((port, n3)) => match varint_parse(payload.skip((n1 + n2 + n3) as int)) {
                        Err(e) => Err(e),
                        Ok((next_state, n4)) => {
                            if n1 + n2 + n3 + n4 != payload.len() {
                                Err(WireError::TrailingBytes)
                            } else if !valid_handshake((version, address, port, next_state)) {
                                Err(WireError::InvalidHandshake)
                            } else {
                                Ok((version, address, port, next_state))
                            }
                        },
                    },
                },
            },
        }
    }

    fn read(payload: &[u8]) -> (r: Result<Self, WireError>) {
        assert(payload@.skip(0) =~= payload@);
        let (version, pos1) = match read_varint(payload, 0) {
            Ok(v) => v,
            Err(e) => return Err(e),
        };
        proof {
            crate::codec::lemma_varint_parse_len(payload@);
        }
        let (address, pos2) = match read_string(payload, pos1) {
            Ok(v) => v,
            Err(e) => return Err(e),
        };
        proof {
            crate::codec::lemma_string_parse_len(payload@.skip(pos1 as int));
        }
        let (port, pos3) = match read_ushort(payload, pos2) {
            Ok(v) => v,
            Err(e) => return Err(e),
        };
        let (next_state, pos4) = match read_varint(payload, pos3) {
            Ok(v) => v,
            Err(e) => return Err(e),
        };
        proof {
            crate::codec::lemma_varint_parse_len(payload@.skip(pos3 as int));
        }
        if pos4 != payload.len() {
            return Err(WireError::TrailingBytes);
        }
        if (next_state != 1 && next_state != 2) || address.as_str().as_bytes().len()
            > MAX_ADDRESS_BYTES {
            return Err(WireError::InvalidHandshake);
        }
        Ok(Packet { version, address, port, next_state })
    }
}

/// The payload of a handshake whose address fits a string field decodes to
/// that handshake when it asks for status or login with an address of at most
/// 255 bytes, and fails with `InvalidHandshake` otherwise.
pub proof fn lemma_handshake_decode(v: (i32, Seq<char>, u16, i32))
    requires
        encode_utf8(v.1).len() <= i32::MAX,
    ensures
        <Packet as In>::spec_parse(<Packet as Out>::spec_encode(v)) == if valid_handshake(v) {
            Ok::<(i32, Seq<char>, u16, i32), WireError>(v)
        } else {
            Err::<(i32, Seq<char>, u16, i32), WireError>(WireError::InvalidHandshake)
        },
{
    let a = varint_bytes(v.0);
    let b = string_bytes(v.1);
    let c = ushort_bytes(v.2);
    let d = varint_bytes(v.3);
    let s = a + b + c + d;
    assert(s == <Packet as Out>::spec_encode(v));
    lemma_varint_round_trip(v.0, b + c + d);
    assert(s =~= a + (b + c + d));
    assert(s.skip(a.len() as int) =~= b + (c + d));
    lemma_string_round_trip(v.1, c + d);
    assert(s.skip((a.len() + b.len()) as int) =~= c + d);
    lemma_ushort_round_trip(v.2, d);
    assert(s.skip((a.len() + b.len() + 2) as int) =~= d + Seq::<u8>::empty());
    lemma_varint_round_trip(v.3, Seq::empty());
}

/// A handshake read back from the payload it was written as is the same
/// handshake.
pub proof fn lemma_handshake_round_trip(v: (i32, Seq<char>, u16, i32))
    requires
        <Packet as Out>::spec_writable(v),
    ensures
        <Packet as In>::spec_parse(<Packet as Out>::spec_encode(v)) == Ok::<
            (i32, Seq<char>, u16, i32),
            WireError,
        >(v),
{
    lemma_handshake_decode(v);
}

/// The status request: a packet with no fields.
pub struct Request;

impl View for Request {
    type V = ();

    open spec fn view(&self) -> Self::V {
        ()
    }
}

impl packet::Packet for Request {
    open spec fn spec_id() -> i32 {
        0
    }

    fn packet_id() -> (r: i32) {
        0
    }
}

impl Out for Request {
    open spec fn spec_encode(v: Self::V) -> Seq<u8> {
        Seq::empty()
    }

    open spec fn spec_writable(v: Self::V) -> bool {
        true
    }

    proof fn lemma_encode_len(v: Self::V) {
    }

    fn write(&self, out: &mut Vec<u8>) {
        assert(final(out)@ =~= old(out)@ + Self::spec_encode(self@));
    }
}

impl In for Request {
    open spec fn spec_parse(payload: Seq<u8>) -> Result<Self::V, WireError> {
        if payload.len() == 0 {
            Ok(())
        } else {
            Err(WireError::TrailingBytes)
        }
    }

    fn read(payload: &[u8]) -> (r: Result<Self, WireError>) {
        if payload.len() != 0 {
            return Err(WireError::TrailingBytes);
        }
        Ok(Request)
    }
}

/// A status request read back from its payload is a status request.
pub proof fn lemma_request_round_trip()
    ensures
        <Request as In>::spec_parse(<Request as Out>::spec_encode(())) == Ok::<(), WireError>(()),
{
}

/// The ping of the status exchange, and the pong that echoes it: a number the
/// client chose.
pub struct Ping {
    pub payload: i64,
}

impl View for Ping {
    type V = i64;

    open spec fn view(&self) -> Self::V {
        self.payload
    }
}

impl packet::Packet for Ping {
    open spec fn spec_id() -> i32 {
        1
    }

    fn packet_id() -> (r: i32) {
        1
    }
}

impl Out for Ping {
    open spec fn spec_encode(v: Self::V) -> Seq<u8> {
        long_bytes(v)
    }

    open spec fn spec_writable(v: Self::V) -> bool {
        true
    }

    proof fn lemma_encode_len(v: Self::V) {
    }

    fn write(&self, out: &mut Vec<u8>) {
        write_long(out, self.payload);
    }
}

impl In for Ping {
    open spec fn spec_parse(payload: Seq<u8>) -> Result<Self::V, WireError> {
        match long_parse(payload) {
            Err(e) => Err(e),
            Ok((v, n)) => {
                if n == payload.len() {
                    Ok(v)
                } else {
                    Err(WireError::TrailingBytes)
                }
            },
        }
    }

    fn read(payload: &[u8]) -> (r: Result<Self, WireError>) {
        assert(payload@.skip(0) =~= payload@);
        let (v, n) = match read_long(payload, 0) {
            Ok(x) => x,
            Err(e) => return Err(e),
        };
        if n != payload.len() {
            return Err(WireError::TrailingBytes);
        }
        Ok(Ping { payload: v })
    }
}

/// A ping read back from its payload carries the same number.
pub proof fn lemma_ping_round_trip(v: i64)
    ensures
        <Ping as In>::spec_parse(<Ping as Out>::spec_encode(v)) == Ok::<i64, WireError>(v),
{
    lemma_long_round_trip(v, Seq::empty());
    assert(long_bytes(v) + Seq::<u8>::empty() =~= long_bytes(v));
}

/// The version block of a status response: a name for the server software and
/// the protocol number it answers with.
pub struct Version {
    pub name: String,
    pub protocol: i32,
}

/// The player block of a status response.
pub struct Players {
    pub max: i32,
    pub online: i32,
    pub sample: Vec<Player>,
}

/// The message of the day of a status response.
pub struct Description {
    pub text: String,
}

/// The answer to a status request, sent as one JSON string.
pub struct Response {
    pub version: Version,
    pub players: Players,
    pub description: Description,
    pub favicon: Option<String>,
}

/// What a status response says: version name and protocol, player limit,
/// players online, the sampled players as (UUID, name), the description and
/// the favicon.
pub struct StatusView {
    pub name: Seq<char>,
    pub protocol: i32,
    pub max: i32,
    pub online: i32,
    pub sample: Seq<(u128, Seq<char>)>,
    pub description: Seq<char>,
    pub favicon: Option<Seq<char>>,
}

impl View for Response {
    type V = StatusView;

    open spec fn view(&self) -> StatusView {
        StatusView {
            name: self.version.name@,
            protocol: self.version.protocol,
            max: self.players.max,
            online: self.players.online,
            sample: self.players.sample@.map_values(|p: Player| (p.id, p.name@)),
            description: self.description.text@,
            favicon: crate::packet::opt_chars(self.favicon),
        }
    }
}

/// A JSON key and its colon.
pub open spec fn json_key(key: Seq<char>) -> Seq<char> {
    json_string(key) + ":"@
}

/// The JSON object of one sampled player.
pub open spec fn sample_entry(p: (u128, Seq<char>)) -> Seq<char> {
    "{"@ + json_key("id"@) + json_string(uuid_text(p.0)) + ","@ + json_key("name"@) + json_string(p.1)
        + "}"@
}

/// The sampled players' objects, separated by commas.
pub open spec fn sample_json(s: Seq<(u128, Seq<char>)>) -> Seq<char>
    decreases s.len(),
{
    if s.len() == 0 {
        Seq::empty()
    } else if s.len() == 1 {
        sample_entry(s[0])
    } else {
        sample_json(s.drop_last()) + ","@ + sample_entry(s.last())
    }
}

/// The JSON text of a status response.
pub open spec fn status_json(v: StatusView) -> Seq<char> {
    let favicon = match v.favicon {
        Some(f) => ","@ + json_key("favicon"@) + json_string(f),
        None => Seq::empty(),
    };
    "{"@ + json_key("version"@) + "{"@ + json_key("name"@) + json_string(v.name) + ","@ + json_key(
        "protocol"@,
    ) + decimal_text(v.protocol as int) + "}"@ + ","@ + json_key("players"@) + "{"@ + json_key(
        "max"@,
    ) + decimal_text(v.max as int) + ","@ + json_key("online"@) + decimal_text(v.online as int)
        + ","@ + json_key("sample"@) + "["@ + sample_json(v.sample) + "]"@ + "}"@ + ","@ + json_key(
        "description"@,
    ) + "{"@ + json_key("text"@) + json_string(v.description) + "}"@ + favicon + "}"@
}

/// Appends `key` quoted and a colon to `out`.
fn append_key(out: &mut String, key: &str)
    ensures
        final(out)@ == old(out)@ + json_key(key@),
{
    let k = json_quote(key);
    out.append(k.as_str());
    out.append(":");
    assert(final(out)@ =~= old(out)@ + json_key(key@));
}

/// Appends `s` quoted to `out`.
fn append_quoted(out: &mut String, s: &str)
    ensures
        final(out)@ == old(out)@ + json_string(s@),
{
    let q = json_quote(s);
    out.append(q.as_str());
}

/// Appends the JSON object of one sampled player to `out`.
fn append_sample_entry(out: &mut String, p: &Player)
    ensures
        final(out)@ == old(out)@ + sample_entry((p.id, p.name@)),
{
    let ghost start = old(out)@;
    out.append("{");
    append_key(out, "id");
    let id = uuid_string(p.id);
    append_quoted(out, id.as_str());
    out.append(",");
    append_key(out, "name");
    append_quoted(out, p.name.as_str());
    out.append("}");
    assert(out@ =~= start + sample_entry((p.id, p.name@)));
}

impl Response {
    /// The JSON text of this response.
    pub fn to_json(&self) -> (r: String)
        ensures
            r@ == status_json(self@),
    {
        let ghost v = self@;
        let mut out = String::new();
        out.append("{");
        append_key(&mut out, "version");
        out.append("{");
        append_key(&mut out, "name");
        append_quoted(&mut out, self.version.name.as_str());
        out.append(",");
        append_key(&mut out, "protocol");
        append_decimal(&mut out, self.version.protocol as i64);
        out.append("}");
        out.append(",");
        append_key(&mut out, "players");
        out.append("{");
        append_key(&mut out, "max");
        append_decimal(&mut out, self.players.max as i64);
        out.append(",");
        append_key(&mut out, "online");
        append_decimal(&mut out, self.players.online as i64);
        out.append(",");
        append_key(&mut out, "sample");
        out.append("[");
        let ghost before_sample = out@;
        let sample = &self.players.sample;
        let mut i: usize = 0;
        while i < sample.len()
            invariant
                i <= sample@.len(),
                sample == &self.players.sample,
                v == self@,
                out@ == before_sample + sample_json(v.sample.take(i as int)),
            decreases sample@.len() - i,
        {
            let ghost prev = out@;
            if i > 0 {
                out.append(",");
            }
            append_sample_entry(&mut out, &sample[i]);
            proof {
                let t = v.sample.take((i + 1) as int);
                assert(t.drop_last() =~= v.sample.take(i as int));
                assert(t.last() == (sample@[i as int].id, sample@[i as int].name@));
                if i == 0 {
                    assert(v.sample.take(0) =~= Seq::<(u128, Seq<char>)>::empty());
                }
            }
            assert(out@ =~= before_sample + sample_json(v.sample.take((i + 1) as int)));
            i = i + 1;
        }
        assert(v.sample.take(sample@.len() as int) =~= v.sample);
        out.append("]");
        out.append("}");
        out.append(",");
        append_key(&mut out, "description");
        out.append("{");
        append_key(&mut out, "text");
        append_quoted(&mut out, self.description.text.as_str());
        out.append("}");
        let ghost before_favicon = out@;
        match &self.favicon {
            Some(f) => {
                out.append(",");
                append_key(&mut out, "favicon");
                append_quoted(&mut out, f.as_str());
            },
            None => {},
        }
        let ghost favicon = match v.favicon {
            Some(f) => ","@ + json_key("favicon"@) + json_string(f),
            None => Seq::<char>::empty(),
        };
        assert(out@ =~= before_favicon + favicon);
        out.append("}");
        assert(out@ =~= status_json(v));
        out
    }
}

impl packet::Packet for Response {
    open spec fn spec_id() -> i32 {
        0
    }

    fn packet_id() -> (r: i32) {
        0
    }
}

impl Out for Response {
    open spec fn spec_encode(v: Self::V) -> Seq<u8> {
        string_bytes(status_json(v))
    }

    open spec fn spec_writable(v: Self::V) -> bool {
        encode_utf8(status_json(v)).len() <= i32::MAX - 10
    }

    proof fn lemma_encode_len(v: Self::V) {
        crate::codec::lemma_varint_round_trip(encode_utf8(status_json(v)).len() as i32, Seq::empty());
    }

    fn write(&self, out: &mut Vec<u8>) {
        let text = self.to_json();
        write_string(out, text.as_str());
    }
}

impl Response {
    /// Whether this response's JSON fits a frame.
    pub fn fits(&self) -> (r: bool)
        ensures
            r == <Response as Out>::spec_writable(self@),
    {
        let text = self.to_json();
        text.as_str().as_bytes().len() <= (i32::MAX - 10) as usize
    }
}

impl RoundTrip for Packet {
    proof fn lemma_round_trip(v: Self::V) {
        lemma_handshake_round_trip(v);
    }
}

impl RoundTrip for Request {
    proof fn lemma_round_trip(v: Self::V) {
        lemma_request_round_trip();
    }
}

impl RoundTrip for Ping {
    proof fn lemma_round_trip(v: Self::V) {
        lemma_ping_round_trip(v);
    }
}

} // verus!
