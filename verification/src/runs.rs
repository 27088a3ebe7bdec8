//! Runs of characters of one kind at the two ends of a text.

use vstd::prelude::*;

verus! {

/// The number of characters of kind `p` that `s` begins with.
pub open spec fn leading(s: Seq<char>, p: spec_fn(char) -> bool) -> nat
    decreases s.len(),
{
    if s.len() > 0 && p(s[0]) {
        1 + leading(s.drop_first(), p)
    } else {
        0
    }
}

/// The number of characters of kind `p` that `s` ends with.
pub open spec fn trailing(s: Seq<char>, p: spec_fn(char) -> bool) -> nat
    decreases s.len(),
{
    if s.len() > 0 && p(s.last()) {
        1 + trailing(s.drop_last(), p)
    } else {
        0
    }
}

/// `s` without the characters of kind `p` at its two ends.
pub open spec fn stripped(s: Seq<char>, p: spec_fn(char) -> bool) -> Seq<char> {
    if leading(s, p) == s.len() {
        Seq::empty()
    } else {
        s.subrange(leading(s, p) as int, s.len() - trailing(s, p))
    }
}

/// Whether no character of `s` is of kind `p`.
pub open spec fn free_of(s: Seq<char>, p: spec_fn(char) -> bool) -> bool {
    forall|i: int| 0 <= i < s.len() ==> !p(#[trigger] s[i])
}

/// The leading run is within the text, holds only characters of the kind,
/// and ends before one that is not.
pub proof fn leading_bounds(s: Seq<char>, p: spec_fn(char) -> bool)
    ensures
        leading(s, p) <= s.len(),
        forall|i: int| 0 <= i < leading(s, p) ==> p(#[trigger] s[i]),
        leading(s, p) < s.len() ==> !p(s[leading(s, p) as int]),
    decreases s.len(),
{
    if s.len() > 0 && p(s[0]) {
        let t = s.drop_first();
        leading_bounds(t, p);
        assert forall|i: int| 0 <= i < leading(s, p) implies p(#[trigger] s[i]) by {
            if i > 0 {
                assert(s[i] == t[i - 1]);
            }
        }
        if leading(s, p) < s.len() {
            assert(s[leading(s, p) as int] == t[leading(t, p) as int]);
        }
    }
}

/// The trailing run is within the text, holds only characters of the kind,
/// and begins after one that is not.
pub proof fn trailing_bounds(s: Seq<char>, p: spec_fn(char) -> bool)
    ensures
        trailing(s, p) <= s.len(),
        forall|i: int| s.len() - trailing(s, p) <= i < s.len() ==> p(#[trigger] s[i]),
        trailing(s, p) < s.len() ==> !p(s[s.len() - trailing(s, p) - 1]),
    decreases s.len(),
{
    if s.len() > 0 && p(s.last()) {
        let t = s.drop_last();
        trailing_bounds(t, p);
        assert forall|i: int| s.len() - trailing(s, p) <= i < s.len() implies p(
            #[trigger] s[i],
        ) by {
            if i < s.len() - 1 {
                assert(s[i] == t[i]);
            }
        }
        if trailing(s, p) < s.len() {
            assert(s[s.len() - trailing(s, p) - 1] == t[t.len() - trailing(t, p) - 1]);
        }
    }
}

/// What is left of a text without the characters of one kind at its ends
/// is a stretch of the text: it holds no character that the text does not
/// hold.
pub proof fn stripped_is_within(s: Seq<char>, p: spec_fn(char) -> bool)
    ensures
        stripped(s, p).len() <= s.len(),
        forall|i: int| 0 <= i < stripped(s, p).len() ==> s.contains(#[trigger] stripped(s, p)[i]),
{
    leading_bounds(s, p);
    trailing_bounds(s, p);
    let a = leading(s, p) as int;
    let b = s.len() - trailing(s, p);
    if a < s.len() {
        assert(a < b) by {
            if a >= b {
                assert(p(s[a]));
            }
        }
        assert forall|i: int| 0 <= i < stripped(s, p).len() implies s.contains(
            #[trigger] stripped(s, p)[i],
        ) by {
            assert(stripped(s, p)[i] == s[a + i]);
        }
    }
}

/// The leading run has `n` characters where the first `n` are of the kind
/// and the next one, if any, is not.
pub proof fn leading_is(s: Seq<char>, p: spec_fn(char) -> bool, n: int)
    requires
        0 <= n <= s.len(),
        forall|i: int| 0 <= i < n ==> p(#[trigger] s[i]),
        n < s.len() ==> !p(s[n]),
    ensures
        leading(s, p) == n,
    decreases s.len(),
{
    if n > 0 {
        let t = s.drop_first();
        assert(p(s[0]));
        assert forall|i: int| 0 <= i < n - 1 implies p(#[trigger] t[i]) by {
            assert(t[i] == s[i + 1]);
        }
        leading_is(t, p, n - 1);
    }
}

/// The trailing run has `n` characters where the last `n` are of the kind
/// and the one before them, if any, is not.
pub proof fn trailing_is(s: Seq<char>, p: spec_fn(char) -> bool, n: int)
    requires
        0 <= n <= s.len(),
        forall|i: int| s.len() - n <= i < s.len() ==> p(#[trigger] s[i]),
        n < s.len() ==> !p(s[s.len() - n - 1]),
    ensures
        trailing(s, p) == n,
    decreases s.len(),
{
    if n > 0 {
        let t = s.drop_last();
        assert(p(s[s.len() - 1]));
        assert forall|i: int| t.len() - (n - 1) <= i < t.len() implies p(#[trigger] t[i]) by {
            assert(t[i] == s[i]);
        }
        trailing_is(t, p, n - 1);
    }
}

/// Stripping takes nothing from a text that neither begins nor ends with a
/// character of the kind.
pub proof fn stripped_is_same(s: Seq<char>, p: spec_fn(char) -> bool)
    requires
        s.len() > 0 ==> !p(s[0]) && !p(s.last()),
    ensures
        stripped(s, p) == s,
{
    if s.len() > 0 {
        leading_is(s, p, 0);
        trailing_is(s, p, 0);
        assert(s.subrange(0, s.len() as int) == s);
    }
}

} // verus!
