//! Colour codes: players write `&` where the game expects the section sign.
use vstd::prelude::*;
use vstd::string::StrSliceExecFns;
use vstd::string::StringExecFns;

verus! {

/// The section sign, which starts a colour or format code in game text.
pub open spec fn section_sign() -> char {
    '\u{a7}'
}

/// `s` with every `&` turned into the section sign.
pub open spec fn colored_text(s: Seq<char>) -> Seq<char> {
    s.map_values(|c: char| if c == '&' { section_sign() } else { c })
}

/// Text whose `&` colour markers can be turned into the game's own.
pub trait Color: View<V = Seq<char>> + Sized {
    fn colored(&self) -> (r: Self)
        ensures
            r@ == colored_text(self@),
    ;
}

impl Color for String {
    fn colored(&self) -> (r: String) {
        let s = self.as_str();
        let n = s.unicode_len();
        let mut out = String::new();
        proof {
            assert(s@.take(0) =~= Seq::<char>::empty());
            assert(colored_text(Seq::<char>::empty()) =~= Seq::<char>::empty());
        }
        let mut i: usize = 0;
        while i < n
            invariant
                n == s@.len(),
                i <= n,
                s@ == self@,
                out@ == colored_text(s@.take(i as int)),
            decreases n - i,
        {
            let c = s.get_char(i);
            let ghost before = out@;
            proof {
                reveal_strlit("\u{a7}");
                assert("\u{a7}"@ =~= seq![section_sign()]);
            }
            if c == '&' {
                out.append("\u{a7}");
            } else {
                out.append(s.substring_char(i, i + 1));
            }
            assert(s@.take((i + 1) as int) =~= s@.take(i as int).push(s@[i as int]));
            assert(colored_text(s@.take((i + 1) as int)) =~= colored_text(s@.take(i as int)).push(
                if c == '&' { section_sign() } else { c },
            ));
            assert(out@ =~= colored_text(s@.take((i + 1) as int)));
            i = i + 1;
        }
        assert(s@.take(n as int) =~= s@);
        out
    }
}

/// Translating colour markers a second time changes nothing.
pub proof fn lemma_colored_idempotent(s: Seq<char>)
    ensures
        colored_text(colored_text(s)) == colored_text(s),
{
    assert(colored_text(colored_text(s)) =~= colored_text(s));
}

} // verus!
