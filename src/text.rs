//! Text helpers: case folding through std, and the space-to-hyphen rewrite.
use vstd::prelude::*;

verus! {

/// The lower-case form of a text, as std's `str::to_lowercase` computes it.
pub uninterp spec fn lower_of(s: Seq<char>) -> Seq<char>;

/// Relies on str::to_lowercase: the result depends on the characters alone,
/// and an empty text stays empty.
#[verifier::external_body]
pub(crate) fn lowercase(s: &str) -> (r: String)
    ensures
        r@ == lower_of(s@),
        s@.len() == 0 ==> r@.len() == 0,
{
    s.to_lowercase()
}

/// Each space replaced by a hyphen; every other character kept.
pub open spec fn spaces_to_hyphens(s: Seq<char>) -> Seq<char> {
    s.map_values(|c: char| if c == ' ' { '-' } else { c })
}

/// Replace every space of `s` by a hyphen. Runs of spaces give runs of
/// hyphens; no other character is changed.
pub fn hyphenate_spaces(s: &str) -> (r: String)
    ensures
        r@ == spaces_to_hyphens(s@),
{
    let n: usize = s.unicode_len();
    let mut out = String::new();
    let mut i: usize = 0;
    while i < n
        invariant
            n == s@.len(),
            i <= n,
            out@ == spaces_to_hyphens(s@.subrange(0, i as int)),
        decreases n - i,
    {
        let c = s.get_char(i);
        if c == ' ' {
            out.append("-");
        } else {
            out.append(s.substring_char(i, i + 1));
        }
        proof {
            reveal_strlit("-");
            assert(spaces_to_hyphens(s@.subrange(0, i + 1)) =~= spaces_to_hyphens(
                s@.subrange(0, i as int),
            ).push(if c == ' ' { '-' } else { c }));
        }
        i = i + 1;
    }
    proof {
        assert(s@.subrange(0, n as int) =~= s@);
    }
    out
}

} // verus!
