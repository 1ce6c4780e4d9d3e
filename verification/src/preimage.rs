//! The text that goes into a digest: three fields joined by colons.

use vstd::prelude::*;
use vstd::string::StringExecFns;

verus! {

/// `first`, `middle` and `last` with a colon between neighbours.
pub open spec fn colon_joined(first: Seq<char>, middle: Seq<char>, last: Seq<char>) -> Seq<char> {
    first + seq![':'] + middle + seq![':'] + last
}

/// Builds the joined text of three fields.
pub fn join_with_colons(first: &str, middle: &str, last: &str) -> (text: String)
    ensures
        text@ == colon_joined(first@, middle@, last@),
{
    let mut text = String::from_str(first);
    text.append(":");
    text.append(middle);
    text.append(":");
    text.append(last);
    proof {
        reveal_strlit(":");
        assert(text@ =~= colon_joined(first@, middle@, last@));
    }
    text
}

/// With middle and last field fixed, the joined text determines the first.
pub proof fn lemma_joined_fixes_first(
    first: Seq<char>,
    other: Seq<char>,
    middle: Seq<char>,
    last: Seq<char>,
)
    requires
        colon_joined(first, middle, last) == colon_joined(other, middle, last),
    ensures
        first == other,
{
    let a = colon_joined(first, middle, last);
    let b = colon_joined(other, middle, last);
    assert(a.len() == first.len() + middle.len() + last.len() + 2);
    assert(b.len() == other.len() + middle.len() + last.len() + 2);
    assert forall|i: int| 0 <= i < first.len() implies first[i] == other[i] by {
        assert(a[i] == first[i]);
        assert(b[i] == other[i]);
    }
    assert(first =~= other);
}

/// With first and last field fixed, the joined text determines the middle.
pub proof fn lemma_joined_fixes_middle(
    first: Seq<char>,
    middle: Seq<char>,
    other: Seq<char>,
    last: Seq<char>,
)
    requires
        colon_joined(first, middle, last) == colon_joined(first, other, last),
    ensures
        middle == other,
{
    let a = colon_joined(first, middle, last);
    let b = colon_joined(first, other, last);
    assert(a.len() == first.len() + middle.len() + last.len() + 2);
    assert(b.len() == first.len() + other.len() + last.len() + 2);
    assert forall|i: int| 0 <= i < middle.len() implies middle[i] == other[i] by {
        assert(a[first.len() + 1 + i] == middle[i]);
        assert(b[first.len() + 1 + i] == other[i]);
    }
    assert(middle =~= other);
}

/// With first and middle field fixed, the joined text determines the last.
pub proof fn lemma_joined_fixes_last(
    first: Seq<char>,
    middle: Seq<char>,
    last: Seq<char>,
    other: Seq<char>,
)
    requires
        colon_joined(first, middle, last) == colon_joined(first, middle, other),
    ensures
        last == other,
{
    let a = colon_joined(first, middle, last);
    let b = colon_joined(first, middle, other);
    assert(a.len() == first.len() + middle.len() + last.len() + 2);
    assert(b.len() == first.len() + middle.len() + other.len() + 2);
    assert forall|i: int| 0 <= i < last.len() implies last[i] == other[i] by {
        assert(a[first.len() + middle.len() + 2 + i] == last[i]);
        assert(b[first.len() + middle.len() + 2 + i] == other[i]);
    }
    assert(last =~= other);
}

} // verus!
