//! File names made from titles: a title becomes one component of a path,
//! bounded in length, without white space or separators, and never empty.

use crate::runs::{free_of, leading, leading_is};
use crate::spacing::{
    compact, compact_text, join_words, joined, joined_words_chars, one_word, space, split_words,
    words,
};
use crate::feed::{versioned_id, versioned_identifier};
use crate::text::{chars_of, digit, extend, lowered, slice_of, text_of, white_space};
use vstd::prelude::*;

verus! {

/// Whether `c` separates the components of a path.
pub open spec fn separator(c: char) -> bool {
    c == '/' || c == '\\'
}

/// `s` with a blank in place of each separator.
pub open spec fn blanked(s: Seq<char>) -> Seq<char> {
    Seq::new(
        s.len(),
        |i: int|
            if separator(s[i]) {
                ' '
            } else {
                s[i]
            },
    )
}

/// The words of a title, where separators part words as white space does,
/// joined by underscores.
pub open spec fn underscored(title: Seq<char>) -> Seq<char> {
    joined(words(blanked(compact(title))), '_')
}

/// The first 96 characters of the underscored title: what is handed on to
/// be cleaned.
pub open spec fn title_stem(title: Seq<char>) -> Seq<char> {
    if underscored(title).len() <= 96 {
        underscored(title)
    } else {
        underscored(title).take(96)
    }
}

/// The name that stands for a title once its stem was cleaned: what was left
/// of the stem, or `paper` where nothing was left.
pub open spec fn file_title(cleaned: Seq<char>) -> Seq<char> {
    if cleaned.len() == 0 {
        "paper"@
    } else {
        cleaned
    }
}

/// Whether `c` may not stand in a file name: one of nine marks, or a control
/// character.
pub open spec fn unfit_for_names(c: char) -> bool {
    ||| c == '/'
    ||| c == '?'
    ||| c == '<'
    ||| c == '>'
    ||| c == '\\'
    ||| c == ':'
    ||| c == '*'
    ||| c == '|'
    ||| c == '"'
    ||| (c as u32) <= 0x1f
    ||| 0x80 <= (c as u32) <= 0x9f
}

/// Whether `r` is `s` with some of its characters left out.
pub open spec fn taken_from(r: Seq<char>, s: Seq<char>) -> bool
    decreases s.len(),
{
    if r.len() == 0 {
        true
    } else if s.len() == 0 {
        false
    } else {
        (r[0] == s[0] && taken_from(r.drop_first(), s.drop_first())) || taken_from(
            r,
            s.drop_first(),
        )
    }
}

/// `s` without its characters unfit for names.
pub open spec fn without_unfit(s: Seq<char>) -> Seq<char>
    decreases s.len(),
{
    if s.len() == 0 {
        Seq::empty()
    } else if unfit_for_names(s.last()) {
        without_unfit(s.drop_last())
    } else {
        without_unfit(s.drop_last()).push(s.last())
    }
}

/// The number of bytes that `c` takes in UTF-8.
pub open spec fn char_bytes(c: char) -> nat {
    if (c as u32) < 0x80 {
        1
    } else if (c as u32) < 0x800 {
        2
    } else if (c as u32) < 0x10000 {
        3
    } else {
        4
    }
}

/// The number of bytes that `s` takes in UTF-8.
pub open spec fn utf8_len(s: Seq<char>) -> nat
    decreases s.len(),
{
    if s.len() == 0 {
        0
    } else {
        utf8_len(s.drop_last()) + char_bytes(s.last())
    }
}

/// The kind of the characters other than the dot.
pub open spec fn no_dot() -> spec_fn(char) -> bool {
    |c: char| c != '.'
}

/// Whether every character of `s` is an ASCII character.
pub open spec fn all_ascii(s: Seq<char>) -> bool {
    forall|i: int| 0 <= i < s.len() ==> (#[trigger] s[i] as u32) < 0x80
}

/// Whether a system may hold the name `s` back for a device. What counts is
/// the part before the first dot, without regard to case: `con`, `prn`,
/// `aux` or `nul`, or `com` or `lpt` and a digit. A part of three or four
/// characters that are not all ASCII characters is counted among them.
pub open spec fn device_like(s: Seq<char>) -> bool {
    let head = s.take(leading(s, no_dot()) as int);
    ||| head.len() == 3 && (!all_ascii(head) || lowered(head) == "con"@ || lowered(head) == "prn"@
        || lowered(head) == "aux"@ || lowered(head) == "nul"@)
    ||| head.len() == 4 && (!all_ascii(head) || ((lowered(head.take(3)) == "com"@ || lowered(
        head.take(3),
    ) == "lpt"@) && digit(head[3])))
}

/// Whether `s` is a name that cleaning leaves as it is on every system,
/// once no character of it is unfit for names: it is not like the name of a
/// device, does not end with a dot or a blank, and takes 255 bytes at most.
pub open spec fn fit_name(s: Seq<char>) -> bool {
    &&& !device_like(s)
    &&& s.len() > 0 ==> s.last() != '.' && s.last() != ' '
    &&& utf8_len(s) <= 255
}

/// Whether `r` may be what is left of `s` after cleaning: `s` with some
/// characters left out, among them every one unfit for names, and at most
/// 255 characters long; and where `s` without its unfit characters is a fit
/// name, `r` is that.
pub open spec fn cleaning_of(r: Seq<char>, s: Seq<char>) -> bool {
    &&& taken_from(r, s)
    &&& forall|i: int| 0 <= i < r.len() ==> !unfit_for_names(#[trigger] r[i])
    &&& r.len() <= 255
    &&& fit_name(without_unfit(s)) ==> r == without_unfit(s)
}

/// Cleans a file name with `sanitize_filename::sanitize`. That function
/// takes out the characters which may not stand in a file name, then a name
/// that is only dots, on some systems also a name that is reserved for a
/// device and dots and blanks at the end, and cuts what is left to 255
/// bytes. The contract states what holds on every system: characters are
/// only left out, none unfit for names stays, and nothing else is left out
/// of a name which, without its unfit characters, is a fit name.
#[verifier::external_body]
fn clean_file_name(name: &str) -> (r: String)
    ensures
        cleaning_of(r@, name@),
{
    sanitize_filename::sanitize(name)
}

/// What is left out of a text makes it no longer, and brings no new
/// character into it.
pub proof fn taken_from_facts(r: Seq<char>, s: Seq<char>)
    requires
        taken_from(r, s),
    ensures
        r.len() <= s.len(),
        forall|i: int| 0 <= i < r.len() ==> s.contains(#[trigger] r[i]),
    decreases s.len(),
{
    if r.len() > 0 {
        let t = s.drop_first();
        if r[0] == s[0] && taken_from(r.drop_first(), t) {
            let q = r.drop_first();
            taken_from_facts(q, t);
            assert forall|i: int| 0 <= i < r.len() implies s.contains(#[trigger] r[i]) by {
                if i == 0 {
                    assert(s[0] == r[0]);
                } else {
                    assert(q[i - 1] == r[i]);
                    let j = choose|j: int| 0 <= j < t.len() && t[j] == q[i - 1];
                    assert(s[j + 1] == r[i]);
                }
            }
        } else {
            taken_from_facts(r, t);
            assert forall|i: int| 0 <= i < r.len() implies s.contains(#[trigger] r[i]) by {
                let j = choose|j: int| 0 <= j < t.len() && t[j] == r[i];
                assert(s[j + 1] == r[i]);
            }
        }
    }
}

/// The stem of a title is at most 96 characters long and holds neither
/// white space nor a separator.
pub proof fn title_stem_facts(title: Seq<char>)
    ensures
        title_stem(title).len() <= 96,
        forall|i: int|
            0 <= i < title_stem(title).len() ==> !white_space(#[trigger] title_stem(title)[i])
                && !separator(title_stem(title)[i]),
{
    let b = blanked(compact(title));
    let u = underscored(title);
    joined_words_chars(b, '_');
    assert forall|i: int| 0 <= i < u.len() implies !white_space(#[trigger] u[i]) && !separator(
        u[i],
    ) by {
        if u[i] != '_' {
            let j = choose|j: int| 0 <= j < b.len() && b[j] == u[i];
            assert(!separator(b[j]));
        }
    }
    assert forall|i: int| 0 <= i < title_stem(title).len() implies !white_space(
        #[trigger] title_stem(title)[i],
    ) && !separator(title_stem(title)[i]) by {
        assert(title_stem(title)[i] == u[i]);
    }
}

/// A text that is not empty, at most 96 characters long, and holds neither
/// white space nor a separator is its own stem.
pub proof fn settled_stem(r: Seq<char>)
    requires
        0 < r.len() <= 96,
        forall|i: int| 0 <= i < r.len() ==> !white_space(#[trigger] r[i]) && !separator(r[i]),
    ensures
        title_stem(r) == r,
{
    assert(free_of(r, space()));
    one_word(r);
    assert(compact(r) == r);
    assert(blanked(r) == r);
}

/// A text without a character unfit for names loses nothing when those
/// are taken out.
pub proof fn without_unfit_keeps_fit(s: Seq<char>)
    requires
        forall|i: int| 0 <= i < s.len() ==> !unfit_for_names(#[trigger] s[i]),
    ensures
        without_unfit(s) == s,
    decreases s.len(),
{
    if s.len() > 0 {
        let front = s.drop_last();
        assert forall|i: int| 0 <= i < front.len() implies !unfit_for_names(#[trigger] front[i]) by {
            assert(front[i] == s[i]);
        }
        without_unfit_keeps_fit(front);
        assert(front.push(s.last()) == s);
    }
}

/// The name that stands for a title once its stem was cleaned is never
/// empty, is at most 96 characters long, holds no separator, no white space
/// and no character unfit for names, and is its own stem: made into a name
/// once more, it is handed to the cleaner as it is.
pub proof fn file_title_facts(title: Seq<char>, cleaned: Seq<char>)
    requires
        cleaning_of(cleaned, title_stem(title)),
    ensures
        0 < file_title(cleaned).len() <= 96,
        forall|i: int|
            0 <= i < file_title(cleaned).len() ==> !separator(#[trigger] file_title(cleaned)[i])
                && !white_space(file_title(cleaned)[i]),
        title_stem(file_title(cleaned)) == file_title(cleaned),
        without_unfit(file_title(cleaned)) == file_title(cleaned),
{
    reveal_strlit("paper");
    let stem = title_stem(title);
    let r = file_title(cleaned);
    assert forall|i: int| 0 <= i < r.len() implies !unfit_for_names(#[trigger] r[i]) by {
        if cleaned.len() > 0 {
            assert(r[i] == cleaned[i]);
        }
    }
    without_unfit_keeps_fit(r);
    title_stem_facts(title);
    taken_from_facts(cleaned, stem);
    assert forall|i: int| 0 <= i < r.len() implies !separator(#[trigger] r[i]) && !white_space(
        r[i],
    ) by {
        if cleaned.len() > 0 {
            let j = choose|j: int| 0 <= j < stem.len() && stem[j] == cleaned[i];
            assert(!white_space(stem[j]));
        }
    }
    settled_stem(r);
}

/// A text takes four bytes for each character at most.
pub proof fn utf8_len_bound(s: Seq<char>)
    ensures
        utf8_len(s) <= 4 * s.len(),
    decreases s.len(),
{
    if s.len() > 0 {
        utf8_len_bound(s.drop_last());
    }
}

/// A text of five to 63 characters, none of them unfit for names, a dot or
/// a blank, is a fit name, and loses nothing when unfit characters are
/// taken out.
pub proof fn plain_names_are_fit(s: Seq<char>)
    requires
        5 <= s.len() <= 63,
        forall|i: int|
            0 <= i < s.len() ==> !unfit_for_names(#[trigger] s[i]) && s[i] != '.' && s[i] != ' ',
    ensures
        fit_name(s),
        without_unfit(s) == s,
{
    without_unfit_keeps_fit(s);
    utf8_len_bound(s);
    assert forall|i: int| 0 <= i < s.len() implies no_dot()(#[trigger] s[i]) by {}
    leading_is(s, no_dot(), s.len() as int);
    assert(s.take(s.len() as int) == s);
}

/// Where the stem of a title, without its unfit characters, is a fit name,
/// the name made from the title is that, or `paper` in place of nothing;
/// and it is a fit name in its turn.
pub proof fn fit_stem_names_the_title(title: Seq<char>, cleaned: Seq<char>)
    requires
        cleaning_of(cleaned, title_stem(title)),
        fit_name(without_unfit(title_stem(title))),
    ensures
        file_title(cleaned) == file_title(without_unfit(title_stem(title))),
        fit_name(file_title(cleaned)),
{
    if cleaned.len() == 0 {
        reveal_strlit("paper");
        let p = "paper"@;
        assert forall|i: int| 0 <= i < p.len() implies !unfit_for_names(#[trigger] p[i])
            && p[i] != '.' && p[i] != ' ' by {}
        plain_names_are_fit(p);
    }
}

/// Making a name from a name that was made from a title changes nothing,
/// where the first name is a fit name: `cleaned` is what the cleaner left
/// of the title's stem, and `again` what it left of the stem of the name.
pub proof fn file_title_settles(title: Seq<char>, cleaned: Seq<char>, again: Seq<char>)
    requires
        cleaning_of(cleaned, title_stem(title)),
        cleaning_of(again, title_stem(file_title(cleaned))),
        fit_name(file_title(cleaned)),
    ensures
        file_title(again) == file_title(cleaned),
{
    file_title_facts(title, cleaned);
}

/// Making a name from a title twice gives the same as making it once,
/// where the stem of the title, without its unfit characters, is a fit
/// name: `cleaned` is what the cleaner left of the title's stem, and `again`
/// what it left of the stem of the name.
pub proof fn sanitizing_twice_is_the_same(title: Seq<char>, cleaned: Seq<char>, again: Seq<char>)
    requires
        cleaning_of(cleaned, title_stem(title)),
        cleaning_of(again, title_stem(file_title(cleaned))),
        fit_name(without_unfit(title_stem(title))),
    ensures
        file_title(again) == file_title(cleaned),
{
    fit_stem_names_the_title(title, cleaned);
    file_title_settles(title, cleaned, again);
}

/// The first 96 characters of the underscored title.
pub fn stem_of_title(title: &str) -> (r: String)
    ensures
        r@ == title_stem(title@),
{
    let compacted = compact_text(title);
    let chars = chars_of(compacted.as_str());
    let mut blank: Vec<char> = Vec::new();
    let mut i: usize = 0;
    while i < chars.len()
        invariant
            i <= chars.len(),
            blank@ == blanked(chars@.take(i as int)),
        decreases chars.len() - i,
    {
        let c = chars[i];
        if c == '/' || c == '\\' {
            blank.push(' ');
        } else {
            blank.push(c);
        }
        assert(blank@ == blanked(chars@.take(i + 1)));
        i += 1;
    }
    assert(chars@.take(chars.len() as int) == chars@);
    let ws = split_words(&blank);
    let joined = join_words(&ws, '_');
    if joined.len() <= 96 {
        text_of(&joined)
    } else {
        let head = slice_of(&joined, 0, 96);
        text_of(&head)
    }
}

/// The name that stands for a title once its stem was cleaned: what was left
/// of the stem, or `paper` where nothing was left.
pub fn title_or_fallback(cleaned: String) -> (r: String)
    ensures
        r@ == file_title(cleaned@),
{
    if cleaned.as_str().is_empty() {
        String::from_str("paper")
    } else {
        cleaned
    }
}

/// Whether `r` may be the name made from `title`: what cleaning left of the
/// title's stem, or `paper` where it left nothing.
pub open spec fn name_of_title(r: Seq<char>, title: Seq<char>) -> bool {
    exists|cleaned: Seq<char>| #[trigger]
        cleaning_of(cleaned, title_stem(title)) && r == file_title(cleaned)
}

/// Makes one component of a file's name from a title. The words of the
/// title, where a separator parts words as white space does, are joined by
/// underscores and cut to 96 characters; an outside cleaner then takes out
/// what may not stand in a file name; `paper` stands in where nothing is
/// left. The result is never empty, at most 96 characters long, and holds
/// neither a separator nor white space nor a character unfit for names.
/// Where the stem without its unfit characters is a fit name, the result is
/// that, on every system, and a fit name in its turn: made into a name once
/// more, it comes back the same.
pub fn sanitize_title_for_filename(title: &str) -> (r: String)
    ensures
        name_of_title(r@, title@),
        0 < r@.len() <= 96,
        forall|i: int| 0 <= i < r@.len() ==> !separator(#[trigger] r@[i]) && !white_space(r@[i]),
        title_stem(r@) == r@,
        without_unfit(r@) == r@,
        fit_name(without_unfit(title_stem(title@))) ==> r@ == file_title(
            without_unfit(title_stem(title@)),
        ) && fit_name(r@),
{
    let stem = stem_of_title(title);
    let cleaned = clean_file_name(stem.as_str());
    proof {
        file_title_facts(title@, cleaned@);
        if fit_name(without_unfit(title_stem(title@))) {
            fit_stem_names_the_title(title@, cleaned@);
        }
    }
    title_or_fallback(cleaned)
}

/// `id` with an underscore in place of each slash.
pub open spec fn safe_id(id: Seq<char>) -> Seq<char> {
    Seq::new(
        id.len(),
        |i: int|
            if id[i] == '/' {
                '_'
            } else {
                id[i]
            },
    )
}

/// What the names of a paper's two files begin with: the identifier with
/// its version, slashes made underscores; an underscore; and the name made
/// from the title.
pub open spec fn file_stem(base_id: Seq<char>, version: u32, name: Seq<char>) -> Seq<char> {
    safe_id(versioned_id(base_id, version)) + seq!['_'] + name
}

/// The name of the PDF with the given stem.
pub open spec fn pdf_file_name(stem: Seq<char>) -> Seq<char> {
    stem + ".pdf"@
}

/// The name of the record beside the PDF with the given stem.
pub open spec fn record_file_name(stem: Seq<char>) -> Seq<char> {
    stem + ".metadata.json"@
}

/// What the names of a paper's two files begin with, given the name made
/// from the paper's title.
pub fn stem_with(base_id: &str, version: u32, name: &str) -> (r: String)
    ensures
        r@ == file_stem(base_id@, version, name@),
{
    let id = chars_of(versioned_identifier(base_id, version).as_str());
    let mut out: Vec<char> = Vec::new();
    let mut i: usize = 0;
    while i < id.len()
        invariant
            i <= id.len(),
            out@ == safe_id(id@.take(i as int)),
        decreases id.len() - i,
    {
        let c = id[i];
        if c == '/' {
            out.push('_');
        } else {
            out.push(c);
        }
        assert(out@ == safe_id(id@.take(i + 1)));
        i += 1;
    }
    assert(id@.take(id.len() as int) == id@);
    out.push('_');
    extend(&mut out, &chars_of(name));
    text_of(&out)
}

} // verus!
