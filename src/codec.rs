//! Byte-level encoding of the wire format: VarInt, strings, big-endian
//! integers and length-prefixed packet frames.
use vstd::prelude::*;
use vstd::slice::slice_subrange;
use vstd::slice::slice_to_vec;
use vstd::utf8::decode_utf8;
use vstd::utf8::encode_utf8;
use vstd::utf8::valid_utf8;

verus! {

broadcast use {vstd::utf8::encode_utf8_valid_utf8, vstd::utf8::encode_utf8_decode_utf8};

/// Why a sequence of bytes could not be read as the expected value.
#[derive(Debug, PartialEq, Eq, Structural, Clone, Copy)]
pub enum WireError {
    /// A VarInt that runs past five bytes.
    MalformedVarInt,
    /// The input ends in the middle of a value.
    Truncated,
    /// A length prefix that is negative.
    NegativeLength,
    /// String bytes that are not UTF-8.
    InvalidString,
    /// A frame whose packet id is not the one the current state expects.
    UnexpectedPacket,
    /// A frame whose body holds bytes after the packet's last field.
    TrailingBytes,
    /// A handshake that asks for a state other than status (1) or login (2),
    /// or names an address longer than 255 bytes.
    InvalidHandshake,
}

/// The largest number of bytes a VarInt occupies.
pub const VARINT_MAX_BYTES: usize = 5;

/// `128` to the power `k`.
pub open spec fn pow128(k: nat) -> nat
    decreases k,
{
    if k == 0 {
        1
    } else {
        128 * pow128((k - 1) as nat)
    }
}

/// The 7-bit groups of `v`, least significant first, each byte but the last
/// with its top bit set.
pub open spec fn uvarint_bytes(v: nat) -> Seq<u8>
    decreases v,
{
    if v < 128 {
        seq![v as u8]
    } else {
        seq![(v % 128 + 128) as u8] + uvarint_bytes(v / 128)
    }
}

/// The VarInt encoding of `x`: the groups of its 32-bit two's complement form.
pub open spec fn varint_bytes(x: i32) -> Seq<u8> {
    uvarint_bytes((x as u32) as nat)
}

/// Reads groups from the front of `s`, at most `budget` of them; the value and
/// the number of bytes read.
pub open spec fn uvarint_parse(s: Seq<u8>, budget: nat) -> Result<(nat, nat), WireError>
    decreases budget,
{
    if budget == 0 {
        Err(WireError::MalformedVarInt)
    } else if s.len() == 0 {
        Err(WireError::Truncated)
    } else if s[0] < 128 {
        Ok((s[0] as nat, 1))
    } else {
        match uvarint_parse(s.drop_first(), (budget - 1) as nat) {
            Ok((v, n)) => Ok((((s[0] - 128) + 128 * v) as nat, n + 1)),
            Err(e) => Err(e),
        }
    }
}

/// The VarInt at the front of `s` and its length in bytes; bits past the 32nd
/// are dropped.
pub open spec fn varint_parse(s: Seq<u8>) -> Result<(i32, nat), WireError> {
    match uvarint_parse(s, VARINT_MAX_BYTES as nat) {
        Ok((v, n)) => Ok((((v % 0x1_0000_0000) as u32) as i32, n)),
        Err(e) => Err(e),
    }
}

proof fn lemma_pow128_positive(k: nat)
    ensures
        pow128(k) >= 1,
    decreases k,
{
    if k > 0 {
        lemma_pow128_positive((k - 1) as nat);
    }
}

/// A value below `128^budget` takes `k` groups with `k <= budget`, and its
/// quotient by `128` is below `128^(budget - 1)`.
proof fn lemma_uvarint_len(v: nat, budget: nat)
    requires
        budget >= 1,
        v < pow128(budget),
    ensures
        1 <= uvarint_bytes(v).len() <= budget,
        v >= 128 ==> budget >= 2 && v / 128 < pow128((budget - 1) as nat),
    decreases v,
{
    let p = pow128((budget - 1) as nat);
    assert(pow128(budget) == 128 * p);
    if v >= 128 {
        assert(v / 128 < p) by (nonlinear_arith)
            requires v < 128 * p;
        if budget == 1 {
            assert(p == 1);
        }
        lemma_uvarint_len(v / 128, (budget - 1) as nat);
    }
}

/// Reading the groups of `v` back, with anything after them, gives `v`.
proof fn lemma_uvarint_round_trip(v: nat, budget: nat, rest: Seq<u8>)
    requires
        budget >= 1,
        v < pow128(budget),
    ensures
        uvarint_parse(uvarint_bytes(v) + rest, budget) == Ok::<(nat, nat), WireError>(
            (v, uvarint_bytes(v).len()),
        ),
    decreases v,
{
    let s = uvarint_bytes(v) + rest;
    lemma_uvarint_len(v, budget);
    if v < 128 {
        assert(s[0] == v as u8);
    } else {
        let tail = uvarint_bytes(v / 128);
        assert(s.drop_first() =~= tail + rest);
        lemma_uvarint_round_trip(v / 128, (budget - 1) as nat, rest);
    }
}

/// VarInt decoding undoes VarInt encoding, whatever follows the encoding, and
/// an encoding takes one to five bytes.
pub proof fn lemma_varint_round_trip(x: i32, rest: Seq<u8>)
    ensures
        varint_parse(varint_bytes(x) + rest) == Ok::<(i32, nat), WireError>(
            (x, varint_bytes(x).len()),
        ),
        1 <= varint_bytes(x).len() <= 5,
{
    let v = (x as u32) as nat;
    lemma_pow128_values();
    lemma_uvarint_round_trip(v, 5, rest);
    lemma_uvarint_len(v, 5);
    assert(v % 0x1_0000_0000 == v);
    assert(((x as u32) as i32) == x) by (bit_vector);
}

/// Five bytes that all carry the continuation bit never start a VarInt,
/// whatever follows them.
pub proof fn lemma_varint_overlong(s: Seq<u8>)
    requires
        s.len() >= 5,
        forall|i: int| 0 <= i < 5 ==> s[i] >= 128,
    ensures
        varint_parse(s) == Err::<(i32, nat), WireError>(WireError::MalformedVarInt),
{
    let s1 = s.drop_first();
    let s2 = s1.drop_first();
    let s3 = s2.drop_first();
    let s4 = s3.drop_first();
    let s5 = s4.drop_first();
    assert(s1[0] == s[1] && s2[0] == s[2] && s3[0] == s[3] && s4[0] == s[4]);
    assert(uvarint_parse(s5, 0) == Err::<(nat, nat), WireError>(WireError::MalformedVarInt));
    assert(uvarint_parse(s4, 1) == Err::<(nat, nat), WireError>(WireError::MalformedVarInt));
    assert(uvarint_parse(s3, 2) == Err::<(nat, nat), WireError>(WireError::MalformedVarInt));
    assert(uvarint_parse(s2, 3) == Err::<(nat, nat), WireError>(WireError::MalformedVarInt));
    assert(uvarint_parse(s1, 4) == Err::<(nat, nat), WireError>(WireError::MalformedVarInt));
}

proof fn lemma_uvarint_parse_len(s: Seq<u8>, budget: nat)
    ensures
        uvarint_parse(s, budget) matches Ok((v, n)) ==> 1 <= n <= s.len() && n <= budget,
    decreases budget,
{
    if budget > 0 && s.len() > 0 && s[0] >= 128 {
        lemma_uvarint_parse_len(s.drop_first(), (budget - 1) as nat);
    }
}

/// A VarInt read from `s` takes between one and five of its bytes.
pub proof fn lemma_varint_parse_len(s: Seq<u8>)
    ensures
        varint_parse(s) matches Ok((v, n)) ==> 1 <= n <= s.len() && n <= 5,
{
    lemma_uvarint_parse_len(s, 5);
}

/// Appends the VarInt encoding of `value` to `out`.
pub fn write_varint(out: &mut Vec<u8>, value: i32)
    ensures
        final(out)@ == old(out)@ + varint_bytes(value),
{
    let mut v: u32 = value as u32;
    let ghost start = old(out)@;
    while v >= 128
        invariant
            start + uvarint_bytes((value as u32) as nat) == out@ + uvarint_bytes(v as nat),
        decreases v,
    {
        let byte: u8 = (v % 128) as u8 + 128;
        proof {
            let tail = uvarint_bytes((v / 128) as nat);
            assert(uvarint_bytes(v as nat) == seq![byte] + tail);
            assert(out@ + (seq![byte] + tail) =~= out@.push(byte) + tail);
        }
        out.push(byte);
        v = v / 128;
    }
    proof {
        assert(uvarint_bytes(v as nat) == seq![v as u8]);
        assert(out@ + seq![v as u8] =~= out@.push(v as u8));
    }
    out.push(v as u8);
}

/// How `uvarint_parse` over the whole input relates to the same parse begun
/// `k` groups in, with `acc` the value of the groups already read.
spec fn resume(r: Result<(nat, nat), WireError>, acc: nat, k: nat) -> Result<(nat, nat), WireError> {
    match r {
        Ok((v, n)) => Ok((acc + pow128(k) * v, n + k)),
        Err(e) => Err(e),
    }
}

/// Reads the VarInt that starts at `pos` in `buf`; its value and the position
/// just past it.
pub fn read_varint(buf: &[u8], pos: usize) -> (r: Result<(i32, usize), WireError>)
    requires
        pos <= buf@.len(),
    ensures
        match varint_parse(buf@.skip(pos as int)) {
            Ok((x, n)) => r matches Ok((y, p)) && y == x && p == pos + n,
            Err(e) => r == Err::<(i32, usize), WireError>(e),
        },
{
    let ghost s = buf@.skip(pos as int);
    let mut acc: u64 = 0;
    let mut mult: u64 = 1;
    let mut k: usize = 0;
    proof {
        assert(s.skip(0) =~= s);
    }
    loop
        invariant
            pos <= buf@.len(),
            s == buf@.skip(pos as int),
            k <= 5,
            k <= buf@.len() - pos,
            mult == pow128(k as nat),
            acc < pow128(k as nat),
            uvarint_parse(s, 5) == resume(uvarint_parse(s.skip(k as int), (5 - k) as nat), acc as nat, k as nat),
        decreases 5 - k,
    {
        let ghost t = s.skip(k as int);
        if k == VARINT_MAX_BYTES {
            return Err(WireError::MalformedVarInt);
        }
        if k >= buf.len() - pos {
            proof {
                assert(t.len() == 0);
            }
            return Err(WireError::Truncated);
        }
        let b: u8 = buf[pos + k];
        assert(t[0] == b);
        assert(pow128((k + 1) as nat) == 128 * pow128(k as nat));
        proof {
            lemma_pow128_values();
        }
        assert(mult <= pow128(4)) by {
            if k < 4 {
                lemma_pow128_mono(k as nat, 4);
            }
        }
        if b < 128 {
            proof {
                assert(mult * (b as u64) <= 127 * 0x1000_0000) by (nonlinear_arith)
                    requires b < 128, mult <= 0x1000_0000;
                assert(uvarint_parse(t, (5 - k) as nat) == Ok::<(nat, nat), WireError>((b as nat, 1)));
            }
            let total: u64 = acc + mult * (b as u64);
            let value: u32 = (total % 0x1_0000_0000) as u32;
            return Ok((#[verifier::truncate] (value as i32), pos + k + 1));
        }
        let group: u64 = (b - 128) as u64;
        proof {
            assert(t.skip(1) =~= s.skip((k + 1) as int));
            assert(t.drop_first() =~= t.skip(1));
            assert(acc + mult * group < mult * 128) by (nonlinear_arith)
                requires acc < mult, group < 128;
            let ghost inner = uvarint_parse(t.skip(1), (4 - k) as nat);
            match inner {
                Ok((v, n)) => {
                    assert(mult * ((b - 128) + 128 * v) == mult * group + (128 * mult) * v)
                        by (nonlinear_arith)
                        requires group == b - 128;
                },
                Err(e) => {},
            }
        }
        acc = acc + mult * group;
        mult = mult * 128;
        k = k + 1;
    }
}

proof fn lemma_pow128_values()
    ensures
        pow128(4) == 0x1000_0000,
        pow128(5) == 0x8_0000_0000,
{
    assert(pow128(0) == 1);
    assert(pow128(1) == 128);
    assert(pow128(2) == 0x4000);
    assert(pow128(3) == 0x20_0000);
    assert(pow128(4) == 0x1000_0000);
    assert(pow128(5) == 0x8_0000_0000);
}

proof fn lemma_pow128_mono(a: nat, b: nat)
    requires
        a <= b,
    ensures
        pow128(a) <= pow128(b),
    decreases b - a,
{
    if a < b {
        lemma_pow128_mono(a, (b - 1) as nat);
        lemma_pow128_positive((b - 1) as nat);
    }
}

/// The wire form of a string: the VarInt count of its UTF-8 bytes, then the bytes.
pub open spec fn string_bytes(s: Seq<char>) -> Seq<u8> {
    varint_bytes(encode_utf8(s).len() as i32) + encode_utf8(s)
}

/// The string at the front of `s` and the number of bytes it occupies.
pub open spec fn string_parse(s: Seq<u8>) -> Result<(Seq<char>, nat), WireError> {
    match varint_parse(s) {
        Ok((len, n)) => {
            if len < 0 {
                Err(WireError::NegativeLength)
            } else if s.len() - n < len {
                Err(WireError::Truncated)
            } else {
                let body = s.subrange(n as int, n + len);
                if valid_utf8(body) {
                    Ok((decode_utf8(body), n + len as nat))
                } else {
                    Err(WireError::InvalidString)
                }
            }
        },
        Err(e) => Err(e),
    }
}

/// Relies on `String::from_utf8`, which accepts exactly the valid UTF-8 byte
/// sequences and keeps their bytes as the string's.
#[verifier::external_body]
fn utf8_to_string(bytes: Vec<u8>) -> (r: Option<String>)
    ensures
        r is Some <==> valid_utf8(bytes@),
        r matches Some(t) ==> encode_utf8(t@) == bytes@,
{
    String::from_utf8(bytes).ok()
}

/// Appends the wire form of `s` to `out`.
pub fn write_string(out: &mut Vec<u8>, s: &str)
    requires
        encode_utf8(s@).len() <= i32::MAX,
    ensures
        final(out)@ == old(out)@ + string_bytes(s@),
{
    let bytes: &[u8] = s.as_bytes();
    let len: usize = bytes.len();
    write_varint(out, len as i32);
    out.extend_from_slice(bytes);
    assert(final(out)@ =~= old(out)@ + string_bytes(s@));
}

/// A string read from `s` takes at most all of it.
pub proof fn lemma_string_parse_len(s: Seq<u8>)
    ensures
        string_parse(s) matches Ok((t, n)) ==> n <= s.len(),
{
    lemma_varint_parse_len(s);
}

/// Reads the string that starts at `pos` in `buf`; the string and the position
/// just past it.
pub fn read_string(buf: &[u8], pos: usize) -> (r: Result<(String, usize), WireError>)
    requires
        pos <= buf@.len(),
    ensures
        match string_parse(buf@.skip(pos as int)) {
            Ok((t, n)) => r matches Ok((x, p)) && x@ == t && p == pos + n,
            Err(e) => r == Err::<(String, usize), WireError>(e),
        },
{
    proof {
        lemma_varint_parse_len(buf@.skip(pos as int));
    }
    let (len, start) = match read_varint(buf, pos) {
        Ok(v) => v,
        Err(e) => return Err(e),
    };
    if len < 0 {
        return Err(WireError::NegativeLength);
    }
    let len: usize = len as usize;
    if buf.len() - start < len {
        return Err(WireError::Truncated);
    }
    let body: Vec<u8> = slice_to_vec(slice_subrange(buf, start, start + len));
    let ghost s = buf@.skip(pos as int);
    let ghost n = (start - pos) as nat;
    assert(body@ =~= s.subrange(n as int, n + len));
    match utf8_to_string(body) {
        Some(t) => {
            proof {
                vstd::utf8::decode_utf8_encode_utf8(body@);
                assert(t@ == decode_utf8(body@));
            }
            Ok((t, start + len))
        },
        None => Err(WireError::InvalidString),
    }
}

/// Reading a string back from its wire form gives the string, whatever follows.
pub proof fn lemma_string_round_trip(s: Seq<char>, rest: Seq<u8>)
    requires
        encode_utf8(s).len() <= i32::MAX,
    ensures
        string_parse(string_bytes(s) + rest) == Ok::<(Seq<char>, nat), WireError>(
            (s, string_bytes(s).len()),
        ),
{
    let b = encode_utf8(s);
    let len = b.len() as i32;
    let w = string_bytes(s) + rest;
    lemma_varint_round_trip(len, b + rest);
    assert(w =~= varint_bytes(len) + (b + rest));
    let n = varint_bytes(len).len();
    assert(w.subrange(n as int, n + len) =~= b);
}

/// The eight bytes of `v`, most significant first.
pub open spec fn u64_be_bytes(v: u64) -> Seq<u8> {
    seq![
        (v >> 56) as u8,
        (v >> 48) as u8,
        (v >> 40) as u8,
        (v >> 32) as u8,
        (v >> 24) as u8,
        (v >> 16) as u8,
        (v >> 8) as u8,
        v as u8,
    ]
}

/// The number whose big-endian bytes are `b0` to `b7`.
pub open spec fn u64_from_be(b0: u8, b1: u8, b2: u8, b3: u8, b4: u8, b5: u8, b6: u8, b7: u8) -> u64 {
    ((b0 as u64) << 56) | ((b1 as u64) << 48) | ((b2 as u64) << 40) | ((b3 as u64) << 32)
        | ((b4 as u64) << 24) | ((b5 as u64) << 16) | ((b6 as u64) << 8) | (b7 as u64)
}

/// The wire form of a long: its 64-bit two's complement form, big-endian.
pub open spec fn long_bytes(v: i64) -> Seq<u8> {
    u64_be_bytes(v as u64)
}

/// The long at the front of `s`; it always takes eight bytes.
pub open spec fn long_parse(s: Seq<u8>) -> Result<(i64, nat), WireError> {
    if s.len() < 8 {
        Err(WireError::Truncated)
    } else {
        Ok((u64_from_be(s[0], s[1], s[2], s[3], s[4], s[5], s[6], s[7]) as i64, 8))
    }
}

/// Appends the wire form of `v` to `out`.
pub fn write_long(out: &mut Vec<u8>, v: i64)
    ensures
        final(out)@ == old(out)@ + long_bytes(v),
{
    let u: u64 = #[verifier::truncate] (v as u64);
    out.push(#[verifier::truncate] ((u >> 56) as u8));
    out.push(#[verifier::truncate] ((u >> 48) as u8));
    out.push(#[verifier::truncate] ((u >> 40) as u8));
    out.push(#[verifier::truncate] ((u >> 32) as u8));
    out.push(#[verifier::truncate] ((u >> 24) as u8));
    out.push(#[verifier::truncate] ((u >> 16) as u8));
    out.push(#[verifier::truncate] ((u >> 8) as u8));
    out.push(#[verifier::truncate] (u as u8));
    assert(final(out)@ =~= old(out)@ + long_bytes(v));
}

/// Reads the long that starts at `pos` in `buf`.
pub fn read_long(buf: &[u8], pos: usize) -> (r: Result<(i64, usize), WireError>)
    requires
        pos <= buf@.len(),
    ensures
        match long_parse(buf@.skip(pos as int)) {
            Ok((x, n)) => r matches Ok((y, p)) && y == x && p == pos + n,
            Err(e) => r == Err::<(i64, usize), WireError>(e),
        },
{
    if buf.len() - pos < 8 {
        return Err(WireError::Truncated);
    }
    let u: u64 = ((buf[pos] as u64) << 56) | ((buf[pos + 1] as u64) << 48) | ((buf[pos + 2] as u64)
        << 40) | ((buf[pos + 3] as u64) << 32) | ((buf[pos + 4] as u64) << 24) | ((buf[pos + 5] as u64)
        << 16) | ((buf[pos + 6] as u64) << 8) | (buf[pos + 7] as u64);
    Ok((#[verifier::truncate] (u as i64), pos + 8))
}

/// Reading a long back from its wire form gives the long.
pub proof fn lemma_long_round_trip(v: i64, rest: Seq<u8>)
    ensures
        long_parse(long_bytes(v) + rest) == Ok::<(i64, nat), WireError>((v, 8)),
{
    let u = v as u64;
    let s = long_bytes(v) + rest;
    assert(s[0] == (u >> 56) as u8 && s[1] == (u >> 48) as u8 && s[2] == (u >> 40) as u8 && s[3]
        == (u >> 32) as u8);
    assert(s[4] == (u >> 24) as u8 && s[5] == (u >> 16) as u8 && s[6] == (u >> 8) as u8 && s[7]
        == u as u8);
    assert(u64_from_be(
        (u >> 56) as u8,
        (u >> 48) as u8,
        (u >> 40) as u8,
        (u >> 32) as u8,
        (u >> 24) as u8,
        (u >> 16) as u8,
        (u >> 8) as u8,
        u as u8,
    ) == u) by (bit_vector);
    assert((u as i64) == v) by (bit_vector)
        requires u == v as u64;
}

/// The wire form of an unsigned short: two bytes, most significant first.
pub open spec fn ushort_bytes(v: u16) -> Seq<u8> {
    seq![(v / 256) as u8, (v % 256) as u8]
}

/// The unsigned short at the front of `s`; it always takes two bytes.
pub open spec fn ushort_parse(s: Seq<u8>) -> Result<(u16, nat), WireError> {
    if s.len() < 2 {
        Err(WireError::Truncated)
    } else {
        Ok(((s[0] * 256 + s[1]) as u16, 2))
    }
}

/// Appends the wire form of `v` to `out`.
pub fn write_ushort(out: &mut Vec<u8>, v: u16)
    ensures
        final(out)@ == old(out)@ + ushort_bytes(v),
{
    out.push((v / 256) as u8);
    out.push((v % 256) as u8);
    assert(final(out)@ =~= old(out)@ + ushort_bytes(v));
}

/// Reads the unsigned short that starts at `pos` in `buf`.
pub fn read_ushort(buf: &[u8], pos: usize) -> (r: Result<(u16, usize), WireError>)
    requires
        pos <= buf@.len(),
    ensures
        match ushort_parse(buf@.skip(pos as int)) {
            Ok((x, n)) => r matches Ok((y, p)) && y == x && p == pos + n,
            Err(e) => r == Err::<(u16, usize), WireError>(e),
        },
{
    if buf.len() - pos < 2 {
        return Err(WireError::Truncated);
    }
    let v: u16 = (buf[pos] as u16) * 256 + buf[pos + 1] as u16;
    Ok((v, pos + 2))
}

/// Reading an unsigned short back from its wire form gives it.
pub proof fn lemma_ushort_round_trip(v: u16, rest: Seq<u8>)
    ensures
        ushort_parse(ushort_bytes(v) + rest) == Ok::<(u16, nat), WireError>((v, 2)),
{
    let s = ushort_bytes(v) + rest;
    assert(s[0] == (v / 256) as u8 && s[1] == (v % 256) as u8);
}

/// The wire form of a byte array: the VarInt count of its bytes, then the bytes.
pub open spec fn byte_array_bytes(b: Seq<u8>) -> Seq<u8> {
    varint_bytes(b.len() as i32) + b
}

/// The byte array at the front of `s` and the number of bytes it occupies.
pub open spec fn byte_array_parse(s: Seq<u8>) -> Result<(Seq<u8>, nat), WireError> {
    match varint_parse(s) {
        Ok((len, n)) => {
            if len < 0 {
                Err(WireError::NegativeLength)
            } else if s.len() - n < len {
                Err(WireError::Truncated)
            } else {
                Ok((s.subrange(n as int, n + len), n + len as nat))
            }
        },
        Err(e) => Err(e),
    }
}

/// Appends the wire form of `b` to `out`.
pub fn write_byte_array(out: &mut Vec<u8>, b: &[u8])
    requires
        b@.len() <= i32::MAX,
    ensures
        final(out)@ == old(out)@ + byte_array_bytes(b@),
{
    write_varint(out, b.len() as i32);
    out.extend_from_slice(b);
    assert(final(out)@ =~= old(out)@ + byte_array_bytes(b@));
}

/// A byte array read from `s` takes at most all of it.
pub proof fn lemma_byte_array_parse_len(s: Seq<u8>)
    ensures
        byte_array_parse(s) matches Ok((b, n)) ==> n <= s.len(),
{
    lemma_varint_parse_len(s);
}

/// Reads the byte array that starts at `pos` in `buf`.
pub fn read_byte_array(buf: &[u8], pos: usize) -> (r: Result<(Vec<u8>, usize), WireError>)
    requires
        pos <= buf@.len(),
    ensures
        match byte_array_parse(buf@.skip(pos as int)) {
            Ok((b, n)) => r matches Ok((x, p)) && x@ == b && p == pos + n,
            Err(e) => r matches Err(x) && x == e,
        },
{
    proof {
        lemma_varint_parse_len(buf@.skip(pos as int));
    }
    let (len, start) = match read_varint(buf, pos) {
        Ok(v) => v,
        Err(e) => return Err(e),
    };
    if len < 0 {
        return Err(WireError::NegativeLength);
    }
    let len: usize = len as usize;
    if buf.len() - start < len {
        return Err(WireError::Truncated);
    }
    let body: Vec<u8> = slice_to_vec(slice_subrange(buf, start, start + len));
    let ghost s = buf@.skip(pos as int);
    let ghost n = (start - pos) as nat;
    assert(body@ =~= s.subrange(n as int, n + len));
    Ok((body, start + len))
}

/// Reading a byte array back from its wire form gives it, whatever follows.
pub proof fn lemma_byte_array_round_trip(b: Seq<u8>, rest: Seq<u8>)
    requires
        b.len() <= i32::MAX,
    ensures
        byte_array_parse(byte_array_bytes(b) + rest) == Ok::<(Seq<u8>, nat), WireError>(
            (b, byte_array_bytes(b).len()),
        ),
{
    let len = b.len() as i32;
    let w = byte_array_bytes(b) + rest;
    lemma_varint_round_trip(len, b + rest);
    assert(w =~= varint_bytes(len) + (b + rest));
    let n = varint_bytes(len).len();
    assert(w.subrange(n as int, n + len) =~= b);
}

/// One packet as it travels: its id and the bytes of its fields.
pub struct Frame {
    pub id: i32,
    pub payload: Vec<u8>,
}

/// The bytes a frame counts in its length prefix: the packet id, then the payload.
pub open spec fn frame_body(id: i32, payload: Seq<u8>) -> Seq<u8> {
    varint_bytes(id) + payload
}

/// The wire form of a packet: the VarInt length of its body, then the body.
pub open spec fn frame_bytes(id: i32, payload: Seq<u8>) -> Seq<u8> {
    varint_bytes(frame_body(id, payload).len() as i32) + frame_body(id, payload)
}

/// The frame at the front of `s`: its id, its payload and the number of bytes
/// it occupies.
pub open spec fn frame_parse(s: Seq<u8>) -> Result<(i32, Seq<u8>, nat), WireError> {
    match varint_parse(s) {
        Ok((len, n)) => {
            if len < 0 {
                Err(WireError::NegativeLength)
            } else if s.len() - n < len {
                Err(WireError::Truncated)
            } else {
                let body = s.subrange(n as int, n + len);
                match varint_parse(body) {
                    Ok((id, m)) => Ok((id, body.skip(m as int), n + len as nat)),
                    Err(e) => Err(e),
                }
            }
        },
        Err(e) => Err(e),
    }
}

/// Whether a frame body of this id and payload fits the length prefix.
pub open spec fn frame_fits(id: i32, payload: Seq<u8>) -> bool {
    frame_body(id, payload).len() <= i32::MAX
}

/// The frame that carries `payload` under packet id `id`.
pub fn encode_frame(id: i32, payload: &[u8]) -> (r: Vec<u8>)
    requires
        payload@.len() <= i32::MAX - 5,
    ensures
        r@ == frame_bytes(id, payload@),
        frame_fits(id, payload@),
{
    proof {
        lemma_varint_round_trip(id, Seq::empty());
    }
    let mut body: Vec<u8> = Vec::new();
    write_varint(&mut body, id);
    body.extend_from_slice(payload);
    let mut out: Vec<u8> = Vec::new();
    write_varint(&mut out, body.len() as i32);
    out.extend_from_slice(body.as_slice());
    assert(body@ =~= frame_body(id, payload@));
    assert(out@ =~= frame_bytes(id, payload@));
    out
}

/// Reads the frame that starts at `pos` in `buf`; the frame and the position
/// just past it.
pub fn decode_frame(buf: &[u8], pos: usize) -> (r: Result<(Frame, usize), WireError>)
    requires
        pos <= buf@.len(),
    ensures
        match frame_parse(buf@.skip(pos as int)) {
            Ok((id, payload, n)) => r matches Ok((f, p)) && f.id == id && f.payload@ == payload && p
                == pos + n,
            Err(e) => r matches Err(x) && x == e,
        },
{
    proof {
        lemma_varint_parse_len(buf@.skip(pos as int));
    }
    let (len, start) = match read_varint(buf, pos) {
        Ok(v) => v,
        Err(e) => return Err(e),
    };
    if len < 0 {
        return Err(WireError::NegativeLength);
    }
    let len: usize = len as usize;
    if buf.len() - start < len {
        return Err(WireError::Truncated);
    }
    let body: &[u8] = slice_subrange(buf, start, start + len);
    let ghost s = buf@.skip(pos as int);
    let ghost n = (start - pos) as nat;
    assert(body@ =~= s.subrange(n as int, n + len));
    proof {
        lemma_varint_parse_len(body@);
        assert(body@.skip(0) =~= body@);
    }
    let (id, at) = match read_varint(body, 0) {
        Ok(v) => v,
        Err(e) => return Err(e),
    };
    let payload: Vec<u8> = slice_to_vec(slice_subrange(body, at, body.len()));
    assert(payload@ =~= body@.skip(at as int));
    Ok((Frame { id, payload }, start + len))
}

/// A frame read from `s` takes at most all of it.
pub proof fn lemma_frame_parse_len(s: Seq<u8>)
    ensures
        frame_parse(s) matches Ok((id, payload, n)) ==> n <= s.len(),
{
    lemma_varint_parse_len(s);
}

/// Reading a frame back from its wire form gives its id and payload, whatever
/// follows it.
pub proof fn lemma_frame_round_trip(id: i32, payload: Seq<u8>, rest: Seq<u8>)
    requires
        frame_fits(id, payload),
    ensures
        frame_parse(frame_bytes(id, payload) + rest) == Ok::<(i32, Seq<u8>, nat), WireError>(
            (id, payload, frame_bytes(id, payload).len()),
        ),
{
    let body = frame_body(id, payload);
    let len = body.len() as i32;
    let w = frame_bytes(id, payload) + rest;
    lemma_varint_round_trip(len, body + rest);
    assert(w =~= varint_bytes(len) + (body + rest));
    let n = varint_bytes(len).len();
    assert(w.subrange(n as int, n + len) =~= body);
    lemma_varint_round_trip(id, payload);
    assert(body.skip(varint_bytes(id).len() as int) =~= payload);
}

} // verus!
