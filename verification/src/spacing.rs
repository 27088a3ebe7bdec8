//! White space in text: trimming, splitting into words, joining words, and
//! the normal form in which every run of white space is one blank.

use crate::runs::{free_of, leading, leading_bounds, leading_is, stripped, trailing_is};
use crate::text::{chars_of, extend, is_whitespace, slice_of, text_of, white_space};
use vstd::prelude::*;

verus! {

/// The kind of the white-space characters.
pub open spec fn space() -> spec_fn(char) -> bool {
    |c: char| white_space(c)
}

/// The kind of the characters that are no white space.
pub open spec fn ink() -> spec_fn(char) -> bool {
    |c: char| !white_space(c)
}

/// `s` without the white space at its two ends.
pub open spec fn trimmed(s: Seq<char>) -> Seq<char> {
    stripped(s, space())
}

/// The words of `s`: its longest runs of characters other than white space,
/// in order.
pub open spec fn words(s: Seq<char>) -> Seq<Seq<char>>
    decreases s.len(),
{
    if s.len() == 0 {
        Seq::empty()
    } else if white_space(s[0]) {
        words(s.drop_first())
    } else {
        proof {
            leading_bounds(s, ink());
        }
        seq![s.take(leading(s, ink()) as int)] + words(s.skip(leading(s, ink()) as int))
    }
}

/// The given words in order, with `sep` between each two neighbours.
pub open spec fn joined(ws: Seq<Seq<char>>, sep: char) -> Seq<char>
    decreases ws.len(),
{
    if ws.len() == 0 {
        Seq::empty()
    } else if ws.len() == 1 {
        ws[0]
    } else {
        joined(ws.drop_last(), sep).push(sep) + ws.last()
    }
}

/// `s` with every run of white space turned into one blank, and none at
/// either end.
pub open spec fn compact(s: Seq<char>) -> Seq<char> {
    joined(words(s), ' ')
}

/// The character sequences that the vectors of `ws` hold.
pub open spec fn texts(ws: Seq<Vec<char>>) -> Seq<Seq<char>> {
    Seq::new(ws.len(), |i: int| ws[i]@)
}

/// `value` without the white space at its two ends.
pub fn trim(s: &Vec<char>) -> (r: Vec<char>)
    ensures
        r@ == trimmed(s@),
{
    let n = s.len();
    let mut a: usize = 0;
    while a < n && is_whitespace(s[a])
        invariant
            a <= n == s.len(),
            forall|i: int| 0 <= i < a ==> white_space(#[trigger] s@[i]),
        decreases n - a,
    {
        a += 1;
    }
    proof {
        leading_is(s@, space(), a as int);
    }
    if a == n {
        return Vec::new();
    }
    let mut b: usize = n;
    while b > a && is_whitespace(s[b - 1])
        invariant
            a <= b <= n == s.len(),
            a < n,
            !white_space(s@[a as int]),
            forall|i: int| b <= i < n ==> white_space(#[trigger] s@[i]),
        decreases b,
    {
        b -= 1;
    }
    proof {
        trailing_is(s@, space(), n - b);
    }
    slice_of(s, a, b)
}

/// The words of `s`, in order.
pub fn split_words(s: &Vec<char>) -> (ws: Vec<Vec<char>>)
    ensures
        texts(ws@) == words(s@),
{
    let n = s.len();
    let mut ws: Vec<Vec<char>> = Vec::new();
    let mut i: usize = 0;
    assert(s@.skip(0) == s@);
    assert(texts(ws@) + words(s@) == words(s@));
    while i < n
        invariant
            i <= n == s.len(),
            words(s@) == texts(ws@) + words(s@.skip(i as int)),
        decreases n - i,
    {
        let ghost rest = s@.skip(i as int);
        if is_whitespace(s[i]) {
            assert(rest.drop_first() == s@.skip(i + 1));
            i += 1;
        } else {
            let mut j: usize = i + 1;
            while j < n && !is_whitespace(s[j])
                invariant
                    i < j <= n == s.len(),
                    rest == s@.skip(i as int),
                    forall|k: int| 0 <= k < j - i ==> !white_space(#[trigger] rest[k]),
                decreases n - j,
            {
                j += 1;
            }
            proof {
                leading_is(rest, ink(), j - i);
                assert(rest.take(j - i) == s@.subrange(i as int, j as int));
                assert(rest.skip(j - i) == s@.skip(j as int));
            }
            let w = slice_of(s, i, j);
            let ghost before = texts(ws@);
            ws.push(w);
            assert(texts(ws@) == before + seq![rest.take(j - i)]);
            i = j;
        }
    }
    assert(words(s@.skip(n as int)) == Seq::<Seq<char>>::empty());
    assert(texts(ws@) + Seq::<Seq<char>>::empty() == texts(ws@));
    ws
}

/// The given words in order, with `sep` between each two neighbours.
pub fn join_words(ws: &Vec<Vec<char>>, sep: char) -> (r: Vec<char>)
    ensures
        r@ == joined(texts(ws@), sep),
{
    let mut r: Vec<char> = Vec::new();
    let mut k: usize = 0;
    while k < ws.len()
        invariant
            k <= ws.len(),
            r@ == joined(texts(ws@).take(k as int), sep),
        decreases ws.len() - k,
    {
        let ghost done = texts(ws@).take(k as int);
        let ghost more = texts(ws@).take(k + 1);
        assert(more.drop_last() == done);
        assert(more.last() == ws@[k as int]@);
        if k > 0 {
            r.push(sep);
        } else {
            assert(r@ + ws@[k as int]@ == ws@[k as int]@);
        }
        extend(&mut r, &ws[k]);
        k += 1;
    }
    assert(texts(ws@).take(ws.len() as int) == texts(ws@));
    r
}

/// `value` with every run of white space turned into one blank, and none at
/// either end.
pub fn compact_text(value: &str) -> (r: String)
    ensures
        r@ == compact(value@),
{
    let chars = chars_of(value);
    let ws = split_words(&chars);
    let out = join_words(&ws, ' ');
    text_of(&out)
}

/// Every word is a run of one character or more, none of them white space,
/// and all of them characters of the text.
pub proof fn words_are_ink(s: Seq<char>)
    ensures
        forall|k: int, i: int|
            0 <= k < words(s).len() && 0 <= i < words(s)[k].len() ==> !white_space(
                #[trigger] words(s)[k][i],
            ) && s.contains(words(s)[k][i]),
        forall|k: int| 0 <= k < words(s).len() ==> (#[trigger] words(s)[k]).len() > 0,
    decreases s.len(),
{
    if s.len() == 0 {
    } else if white_space(s[0]) {
        let t = s.drop_first();
        words_are_ink(t);
        assert forall|k: int, i: int|
            0 <= k < words(s).len() && 0 <= i < words(s)[k].len() implies !white_space(
            #[trigger] words(s)[k][i],
        ) && s.contains(words(s)[k][i]) by {
            let c = words(t)[k][i];
            let j = choose|j: int| 0 <= j < t.len() && t[j] == c;
            assert(s[j + 1] == c);
        }
    } else {
        leading_bounds(s, ink());
        let n = leading(s, ink()) as int;
        let t = s.skip(n);
        words_are_ink(t);
        let first = s.take(n);
        assert(words(s) == seq![first] + words(t));
        assert forall|k: int, i: int|
            0 <= k < words(s).len() && 0 <= i < words(s)[k].len() implies !white_space(
            #[trigger] words(s)[k][i],
        ) && s.contains(words(s)[k][i]) by {
            if k == 0 {
                assert(words(s)[0] == first);
                assert(first[i] == s[i]);
            } else {
                assert(words(s)[k] == words(t)[k - 1]);
                let c = words(t)[k - 1][i];
                let j = choose|j: int| 0 <= j < t.len() && t[j] == c;
                assert(s[j + n] == c);
            }
        }
        assert forall|k: int| 0 <= k < words(s).len() implies (#[trigger] words(s)[k]).len()
            > 0 by {
            if k == 0 {
                assert(words(s)[0] == first);
            } else {
                assert(words(s)[k] == words(t)[k - 1]);
            }
        }
    }
}

/// Every character of joined words is the separator or a character of one
/// of the words.
pub proof fn joined_chars(ws: Seq<Seq<char>>, sep: char)
    ensures
        forall|i: int|
            0 <= i < joined(ws, sep).len() ==> #[trigger] joined(ws, sep)[i] == sep || exists|
                k: int,
                j: int,
            |
                0 <= k < ws.len() && 0 <= j < ws[k].len() && ws[k][j] == joined(ws, sep)[i],
    decreases ws.len(),
{
    if ws.len() >= 2 {
        let head = ws.drop_last();
        joined_chars(head, sep);
        let h = joined(head, sep);
        assert forall|i: int| 0 <= i < joined(ws, sep).len() implies #[trigger] joined(
            ws,
            sep,
        )[i] == sep || exists|k: int, j: int|
            0 <= k < ws.len() && 0 <= j < ws[k].len() && ws[k][j] == joined(ws, sep)[i] by {
            let c = joined(ws, sep)[i];
            if i < h.len() {
                assert(c == h[i]);
                if c != sep {
                    let (k, j) = choose|k: int, j: int|
                        0 <= k < head.len() && 0 <= j < head[k].len() && head[k][j] == h[i];
                    assert(ws[k][j] == c);
                }
            } else if i > h.len() {
                let k = ws.len() - 1;
                assert(ws[k][i - h.len() - 1] == c);
            }
        }
    } else if ws.len() == 1 {
        assert forall|i: int| 0 <= i < joined(ws, sep).len() implies #[trigger] joined(
            ws,
            sep,
        )[i] == sep || exists|k: int, j: int|
            0 <= k < ws.len() && 0 <= j < ws[k].len() && ws[k][j] == joined(ws, sep)[i] by {
            assert(ws[0][i] == joined(ws, sep)[i]);
        }
    }
}

/// The words of a text, joined by a separator, hold nothing but the
/// separator and characters of the text that are no white space.
pub proof fn joined_words_chars(s: Seq<char>, sep: char)
    ensures
        forall|i: int|
            0 <= i < joined(words(s), sep).len() ==> #[trigger] joined(words(s), sep)[i] == sep
                || (!white_space(joined(words(s), sep)[i]) && s.contains(
                joined(words(s), sep)[i],
            )),
{
    words_are_ink(s);
    joined_chars(words(s), sep);
}

/// A text of one character or more, none of them white space, is its own
/// and only word.
pub proof fn one_word(s: Seq<char>)
    requires
        s.len() > 0,
        free_of(s, space()),
    ensures
        words(s) == seq![s],
{
    assert forall|i: int| 0 <= i < s.len() implies ink()(#[trigger] s[i]) by {
        assert(!space()(s[i]));
    }
    leading_is(s, ink(), s.len() as int);
    assert(s.take(s.len() as int) == s);
    assert(words(s.skip(s.len() as int)) == Seq::<Seq<char>>::empty());
    assert(seq![s] + Seq::<Seq<char>>::empty() == seq![s]);
}

/// The words of two texts in a row are the words of the one and the words
/// of the other, where white space stands between the two or one is empty.
pub proof fn words_of_parts(a: Seq<char>, b: Seq<char>)
    requires
        a.len() == 0 || b.len() == 0 || white_space(a.last()) || white_space(b[0]),
    ensures
        words(a + b) == words(a) + words(b),
    decreases a.len(),
{
    if a.len() == 0 {
        assert(a + b == b);
        assert(words(a) + words(b) == words(b));
    } else if white_space(a[0]) {
        let rest = a.drop_first();
        assert((a + b).drop_first() == rest + b);
        if rest.len() > 0 {
            assert(rest.last() == a.last());
        }
        words_of_parts(rest, b);
    } else {
        leading_bounds(a, ink());
        let n = leading(a, ink()) as int;
        let rest = a.skip(n);
        assert forall|i: int| 0 <= i < n implies ink()(#[trigger] (a + b)[i]) by {
            assert((a + b)[i] == a[i]);
        }
        if n < a.len() {
            assert((a + b)[n] == a[n]);
        } else if b.len() > 0 {
            assert((a + b)[n] == b[0]);
            assert(!white_space(a.last()));
        }
        leading_is(a + b, ink(), n);
        assert((a + b).take(n) == a.take(n));
        assert((a + b).skip(n) == rest + b);
        if rest.len() > 0 {
            assert(rest.last() == a.last());
        }
        words_of_parts(rest, b);
        assert(seq![a.take(n)] + (words(rest) + words(b)) == (seq![a.take(n)] + words(rest))
            + words(b));
    }
}

/// Words that are joined by blanks are the words of what they make.
pub proof fn words_of_joined(ws: Seq<Seq<char>>)
    requires
        forall|k: int| 0 <= k < ws.len() ==> (#[trigger] ws[k]).len() > 0 && free_of(ws[k], space()),
    ensures
        words(joined(ws, ' ')) == ws,
    decreases ws.len(),
{
    if ws.len() == 1 {
        one_word(ws[0]);
        assert(ws == seq![ws[0]]);
    } else if ws.len() >= 2 {
        let front = ws.drop_last();
        let last = ws.last();
        let j = joined(front, ' ');
        assert forall|k: int| 0 <= k < front.len() implies (#[trigger] front[k]).len() > 0
            && free_of(front[k], space()) by {
            assert(front[k] == ws[k]);
        }
        words_of_joined(front);
        let blank = seq![' '];
        assert(white_space(blank[0]));
        assert(blank.drop_first().len() == 0);
        assert(words(blank.drop_first()) == Seq::<Seq<char>>::empty());
        assert(words(blank) == Seq::<Seq<char>>::empty());
        words_of_parts(j, blank);
        assert(j.push(' ') == j + blank);
        assert(words(j.push(' ')) == front) by {
            assert(front + Seq::<Seq<char>>::empty() == front);
        }
        words_of_parts(j.push(' '), last);
        one_word(last);
        assert(front + seq![last] == ws);
    }
}

/// A compact text has the words of the text that it was made from, and is
/// settled: made compact once more, it is the same.
pub proof fn compact_is_settled(s: Seq<char>)
    ensures
        words(compact(s)) == words(s),
        compact(compact(s)) == compact(s),
{
    words_are_ink(s);
    let ws = words(s);
    assert forall|k: int| 0 <= k < ws.len() implies (#[trigger] ws[k]).len() > 0 && free_of(
        ws[k],
        space(),
    ) by {
        assert forall|i: int| 0 <= i < ws[k].len() implies !space()(#[trigger] ws[k][i]) by {
            assert(!white_space(words(s)[k][i]));
        }
    }
    words_of_joined(ws);
}

} // verus!
