//! A player as the session server vouches for it.
use crate::json::hex_digit;
use vstd::prelude::*;

verus! {

/// One signed property of a player's profile, such as the skin.
#[derive(Debug, Clone)]
pub struct Property {
    pub name: String,
    pub value: String,
    pub signature: Option<String>,
}

/// An authenticated player: the UUID (as one 128-bit number), the name, and
/// the profile's properties.
#[derive(Debug, Clone)]
pub struct Player {
    pub id: u128,
    pub name: String,
    pub properties: Vec<Property>,
}

impl Player {
    /// A player with no properties.
    pub fn new(id: u128, name: &str) -> (r: Player)
        ensures
            r.id == id,
            r.name@ == name@,
            r.properties@.len() == 0,
    {
        Player { id, name: name.to_owned(), properties: Vec::new() }
    }

    /// A copy of this player.
    pub fn duplicate(&self) -> (r: Player)
        ensures
            r.id == self.id,
            r.name@ == self.name@,
    {
        Player { id: self.id, name: self.name.clone(), properties: self.properties.clone() }
    }

    /// The name the player logged in with.
    pub fn get_name(&self) -> (r: &str)
        ensures
            r@ == self.name@,
    {
        self.name.as_str()
    }
}

/// The last `width` hexadecimal digits of `v`, most significant first.
pub open spec fn hex_fixed(v: nat, width: nat) -> Seq<char>
    decreases width,
{
    if width == 0 {
        Seq::empty()
    } else {
        hex_fixed(v / 16, (width - 1) as nat).push(hex_digit(v % 16))
    }
}

/// The hyphenated form of a UUID: its 32 hex digits in groups of 8, 4, 4, 4
/// and 12.
pub open spec fn uuid_text(v: u128) -> Seq<char> {
    let h = hex_fixed(v as nat, 32);
    h.subrange(0, 8) + seq!['-'] + h.subrange(8, 12) + seq!['-'] + h.subrange(12, 16) + seq!['-']
        + h.subrange(16, 20) + seq!['-'] + h.subrange(20, 32)
}

/// Relies on `uuid::Uuid::from_u128` and its hyphenated lowercase formatting.
#[verifier::external_body]
pub(crate) fn uuid_string(v: u128) -> (r: String)
    ensures
        r@ == uuid_text(v),
{
    uuid::Uuid::from_u128(v).hyphenated().to_string()
}

} // verus!
