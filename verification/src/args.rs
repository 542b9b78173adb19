//! Building argument lists of the external tools.

use vstd::prelude::*;

verus! {

/// The texts of a list of strings.
pub open spec fn texts(v: Seq<String>) -> Seq<Seq<char>> {
    v.map_values(|s: String| s@)
}

/// Appends the text `s` as one more argument.
pub fn push_arg(v: &mut Vec<String>, s: &str)
    ensures
        texts(final(v)@) == texts(old(v)@).push(s@),
{
    v.push(String::from_str(s));
    proof {
        assert(texts(final(v)@) =~= texts(old(v)@).push(s@));
    }
}

/// Appends an owned string as one more argument.
pub fn push_owned(v: &mut Vec<String>, s: String)
    ensures
        texts(final(v)@) == texts(old(v)@).push(s@),
{
    let ghost t = s@;
    v.push(s);
    proof {
        assert(texts(final(v)@) =~= texts(old(v)@).push(t));
    }
}

} // verus!
