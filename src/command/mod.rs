//! The console's administrative commands: matching a typed word to a command,
//! and what each command answers.
pub mod proxy;
pub mod version;

use crate::protocol::login::same_bytes;
use vstd::prelude::*;

verus! {

/// `s` in lower case, as `str::to_lowercase` makes it.
pub uninterp spec fn lower_of(s: Seq<char>) -> Seq<char>;

/// Relies on `str::to_lowercase`: the result depends on the characters alone,
/// and the empty string stays empty.
#[verifier::external_body]
pub(crate) fn lowercase(s: &str) -> (r: String)
    ensures
        r@ == lower_of(s@),
        s@.len() == 0 ==> r@.len() == 0,
{
    s.to_lowercase()
}

/// Whether two strings hold the same characters.
pub fn same_text(a: &str, b: &str) -> (r: bool)
    ensures
        r == (a@ == b@),
{
    proof {
        vstd::utf8::encode_utf8_decode_utf8(a@);
        vstd::utf8::encode_utf8_decode_utf8(b@);
    }
    same_bytes(a.as_bytes(), b.as_bytes())
}

/// Whether the lowered word `word` names a command with this label and these
/// aliases.
pub open spec fn names_command(word: Seq<char>, label: Seq<char>, aliases: Seq<Seq<char>>) -> bool {
    word == label || aliases.contains(word)
}

/// Whether the typed word `word`, lowered, names the command with this label
/// and these aliases.
pub fn matches_command(word: &str, label: &str, aliases: &Vec<&str>) -> (r: bool)
    ensures
        r == names_command(lower_of(word@), label@, aliases@.map_values(|a: &str| a@)),
{
    let lowered = lowercase(word);
    is_named(lowered.as_str(), label, aliases)
}

/// Whether the already lowered word `lowered` names the command with this
/// label and these aliases.
pub fn is_named(lowered: &str, label: &str, aliases: &Vec<&str>) -> (r: bool)
    ensures
        r == names_command(lowered@, label@, aliases@.map_values(|a: &str| a@)),
{
    let ghost views = aliases@.map_values(|a: &str| a@);
    if same_text(lowered, label) {
        return true;
    }
    let mut i: usize = 0;
    while i < aliases.len()
        invariant
            i <= aliases@.len(),
            views == aliases@.map_values(|a: &str| a@),
            forall|j: int| 0 <= j < i ==> views[j] != lowered@,
            lowered@ != label@,
        decreases aliases@.len() - i,
    {
        if same_text(lowered, aliases[i]) {
            assert(views[i as int] == lowered@);
            return true;
        }
        i = i + 1;
    }
    assert(!views.contains(lowered@));
    false
}

} // verus!
