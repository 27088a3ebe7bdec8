//! arXiv identifiers: the two shapes of a paper's identifier, the version
//! mark that may follow it, and the forms in which a user may hand one in,
//! bare or as an address on arxiv.org.

use crate::number::{all_digits, decimal, decimal_reads_back, number_u32, parse_number};
use crate::runs::{
    leading_is, stripped, stripped_is_same, stripped_is_within, trailing, trailing_is,
};
use crate::spacing::{space, trim, trimmed};
use crate::text::{
    chars_of, digit, ends_with, has_prefix, has_suffix, is_digit, is_letter, letter, lowered,
    lowered_chars, same_chars, slice_of, starts_with, text_of,
};
use vstd::prelude::*;

verus! {

/// Whether `c` may stand in the archive name of an old-style identifier.
pub open spec fn archive_char(c: char) -> bool {
    letter(c) || c == '.' || c == '-'
}

/// The old shape: an archive name of letters, dots and hyphens, a slash, and
/// seven digits.
pub open spec fn legacy_base(b: Seq<char>) -> bool {
    &&& b.len() >= 9
    &&& forall|i: int| 0 <= i < b.len() - 8 ==> archive_char(#[trigger] b[i])
    &&& b[b.len() - 8] == '/'
    &&& forall|i: int| b.len() - 7 <= i < b.len() ==> digit(#[trigger] b[i])
}

/// The new shape: four digits, a dot, and four or five digits.
pub open spec fn modern_base(b: Seq<char>) -> bool {
    &&& 9 <= b.len() <= 10
    &&& forall|i: int| 0 <= i < 4 ==> digit(#[trigger] b[i])
    &&& b[4] == '.'
    &&& forall|i: int| 5 <= i < b.len() ==> digit(#[trigger] b[i])
}

/// Whether `b` has one of the two shapes of an identifier without version.
pub open spec fn base_shape(b: Seq<char>) -> bool {
    legacy_base(b) || modern_base(b)
}

/// The kind of the digits.
pub open spec fn digits() -> spec_fn(char) -> bool {
    |c: char| digit(c)
}

/// The kind of the slash.
pub open spec fn slash() -> spec_fn(char) -> bool {
    |c: char| c == '/'
}

/// The version that the digits of a version mark ask for: the number that
/// they denote, where it is 1 at least and fits in 32 bits. Digits that
/// denote 0 or too large a number are no version.
pub open spec fn version_of(digits: Seq<char>) -> Option<u32> {
    match number_u32(digits) {
        Some(n) => if n >= 1 {
            Some(n)
        } else {
            None
        },
        None => None,
    }
}

/// What the text `t` says as an identifier, where it is one: the identifier
/// in lower case, and the version that was asked for. `t` is an identifier
/// of one of the two shapes, alone or followed by a version mark: `v` and
/// the digits of a version. Any other text says nothing, and so does one
/// whose mark denotes no version.
pub open spec fn plain_identifier(t: Seq<char>) -> Option<(Seq<char>, Option<u32>)> {
    let cut = t.len() - trailing(t, digits()) - 1;
    if base_shape(t) {
        Some((lowered(t), None))
    } else if trailing(t, digits()) >= 1 && cut >= 0 && t[cut] == 'v' && base_shape(t.take(cut))
        && version_of(t.skip(cut + 1)) is Some {
        Some((lowered(t.take(cut)), version_of(t.skip(cut + 1))))
    } else {
        None
    }
}

/// What `value` says as an identifier once the white space at its ends is
/// gone.
pub open spec fn plain_arxiv_id(value: Seq<char>) -> Option<(Seq<char>, Option<u32>)> {
    plain_identifier(trimmed(value))
}

/// Whether what was read is well read: nothing, or an identifier of one of
/// the two shapes in lower case, with no version or a version of 1 or
/// more.
pub open spec fn well_read(said: Option<(Seq<char>, Option<u32>)>) -> bool {
    match said {
        Some((base, version)) => base_shape(base) && lowered(base) == base && (version
            matches Some(v) ==> v >= 1),
        None => true,
    }
}

/// An identifier and the version asked for, as sequences of characters.
pub open spec fn identity_view(r: Option<(String, Option<u32>)>) -> Option<
    (Seq<char>, Option<u32>),
> {
    match r {
        Some((base, version)) => Some((base@, version)),
        None => None,
    }
}

fn digits_between(t: &Vec<char>, from: usize, to: usize) -> (r: bool)
    requires
        from <= to <= t.len(),
    ensures
        r == forall|i: int| from <= i < to ==> digit(#[trigger] t@[i]),
{
    let mut i: usize = from;
    while i < to
        invariant
            from <= i <= to <= t.len(),
            forall|k: int| from <= k < i ==> digit(#[trigger] t@[k]),
        decreases to - i,
    {
        if !is_digit(t[i]) {
            return false;
        }
        i += 1;
    }
    true
}

fn archive_between(t: &Vec<char>, from: usize, to: usize) -> (r: bool)
    requires
        from <= to <= t.len(),
    ensures
        r == forall|i: int| from <= i < to ==> archive_char(#[trigger] t@[i]),
{
    let mut i: usize = from;
    while i < to
        invariant
            from <= i <= to <= t.len(),
            forall|k: int| from <= k < i ==> archive_char(#[trigger] t@[k]),
        decreases to - i,
    {
        let c = t[i];
        if !(is_letter(c) || c == '.' || c == '-') {
            return false;
        }
        i += 1;
    }
    true
}

fn is_base(t: &Vec<char>, end: usize) -> (r: bool)
    requires
        end <= t.len(),
    ensures
        r == base_shape(t@.take(end as int)),
{
    let ghost b = t@.take(end as int);
    let modern = (end == 9 || end == 10) && digits_between(t, 0, 4) && t[4] == '.'
        && digits_between(t, 5, end);
    proof {
        if modern {
            assert forall|i: int| 0 <= i < 4 implies digit(#[trigger] b[i]) by {
                assert(b[i] == t@[i]);
            }
            assert forall|i: int| 5 <= i < b.len() implies digit(#[trigger] b[i]) by {
                assert(b[i] == t@[i]);
            }
        } else if modern_base(b) {
            assert forall|i: int| 0 <= i < 4 implies digit(#[trigger] t@[i]) by {
                assert(b[i] == t@[i]);
            }
            assert forall|i: int| 5 <= i < end implies digit(#[trigger] t@[i]) by {
                assert(b[i] == t@[i]);
            }
        }
    }
    if modern {
        return true;
    }
    let legacy = end >= 9 && archive_between(t, 0, end - 8) && t[end - 8] == '/' && digits_between(
        t,
        end - 7,
        end,
    );
    proof {
        if legacy {
            assert forall|i: int| 0 <= i < b.len() - 8 implies archive_char(#[trigger] b[i]) by {
                assert(b[i] == t@[i]);
            }
            assert forall|i: int| b.len() - 7 <= i < b.len() implies digit(#[trigger] b[i]) by {
                assert(b[i] == t@[i]);
            }
        } else if legacy_base(b) {
            assert forall|i: int| 0 <= i < end - 8 implies archive_char(#[trigger] t@[i]) by {
                assert(b[i] == t@[i]);
            }
            assert forall|i: int| end - 7 <= i < end implies digit(#[trigger] t@[i]) by {
                assert(b[i] == t@[i]);
            }
        }
    }
    legacy
}

/// Reads an identifier that stands alone: `value`, without the white space
/// at its ends, must be an identifier of one of the two shapes, with or
/// without a version mark, and nothing else. A mark must denote a version:
/// a number of 1 or more that fits in 32 bits.
pub fn parse_plain_arxiv_id(value: &str) -> (r: Option<(String, Option<u32>)>)
    ensures
        identity_view(r) == plain_arxiv_id(value@),
        well_read(identity_view(r)),
{
    let chars = chars_of(value);
    let t = trim(&chars);
    proof {
        identifier_read_has_a_shape(t@, None);
    }
    let n = t.len();
    assert(t@.take(n as int) == t@);
    if is_base(&t, n) {
        let base = lowered_chars(&t);
        return Some((text_of(&base), None));
    }
    let mut k: usize = n;
    while k > 0 && is_digit(t[k - 1])
        invariant
            k <= n == t.len(),
            forall|i: int| k <= i < n ==> digit(#[trigger] t@[i]),
        decreases k,
    {
        k -= 1;
    }
    proof {
        trailing_is(t@, digits(), n - k);
    }
    if k == n || k == 0 {
        return None;
    }
    let cut = k - 1;
    if t[cut] != 'v' || !is_base(&t, cut) {
        return None;
    }
    let head = slice_of(&t, 0, cut);
    let tail = slice_of(&t, k, n);
    assert(head@ == t@.take(cut as int));
    assert(tail@ == t@.skip(cut + 1));
    match parse_number(&tail) {
        Some(version) => {
            if version >= 1 {
                let base = lowered_chars(&head);
                Some((text_of(&base), Some(version)))
            } else {
                None
            }
        },
        None => None,
    }
}

/// The two parts of an absolute address that tell whether it names a paper.
#[derive(Debug, Clone)]
pub struct UrlParts {
    /// The host, for an address that has one.
    pub host: Option<String>,
    /// The path, from its first slash on.
    pub path: String,
}

impl View for UrlParts {
    type V = (Option<Seq<char>>, Seq<char>);

    open spec fn view(&self) -> (Option<Seq<char>>, Seq<char>) {
        (
            match self.host {
                Some(h) => Some(h@),
                None => None,
            },
            self.path@,
        )
    }
}

/// The parts of an address that was read, or nothing, as sequences of
/// characters.
pub open spec fn parts_view(r: Option<UrlParts>) -> Option<(Option<Seq<char>>, Seq<char>)> {
    match r {
        Some(parts) => Some(parts@),
        None => None,
    }
}

/// What `url::Url::parse` makes of `text`: nothing where `text` is no
/// absolute address, else the address's host as `host_str` gives it, and its
/// path as `path` gives it.
pub uninterp spec fn absolute_url(text: Seq<char>) -> Option<(Option<Seq<char>>, Seq<char>)>;

/// Reads `text` as an absolute address with `url::Url::parse` and hands out
/// its host (`Url::host_str`) and its path (`Url::path`). Nothing is proved
/// of the reading itself: the contract gives its outcome the name
/// `absolute_url`, and adds that a text without a colon is no absolute
/// address, since such an address begins with a scheme and a colon.
#[verifier::external_body]
fn split_url(text: &str) -> (r: Option<UrlParts>)
    ensures
        parts_view(r) == absolute_url(text@),
        !text@.contains(':') ==> r is None,
{
    match url::Url::parse(text) {
        Ok(u) => Some(UrlParts { host: u.host_str().map(String::from), path: String::from(u.path()) }),
        Err(_) => None,
    }
}

/// Whether `host` is one of the two hosts on which identifiers are read,
/// whatever the case of its letters.
pub open spec fn arxiv_host(host: Seq<char>) -> bool {
    lowered(host) == "arxiv.org"@ || lowered(host) == "www.arxiv.org"@
}

/// The identifier that the path of an address names: the path without the
/// slashes at its ends is `abs/` and an identifier, or `pdf/` and an
/// identifier, which `.pdf` may follow.
pub open spec fn identifier_in_path(path: Seq<char>) -> Option<(Seq<char>, Option<u32>)> {
    let p = stripped(path, slash());
    if starts_with(p, "abs/"@) {
        plain_arxiv_id(p.skip(4))
    } else if starts_with(p, "pdf/"@) {
        let rest = p.skip(4);
        if ends_with(rest, ".pdf"@) {
            plain_arxiv_id(rest.take(rest.len() - 4))
        } else {
            plain_arxiv_id(rest)
        }
    } else {
        None
    }
}

/// The identifier that an address with the given host and path names: the
/// host must be one of the two, and the path must name an identifier.
pub open spec fn identifier_in_url(host: Option<Seq<char>>, path: Seq<char>) -> Option<
    (Seq<char>, Option<u32>),
> {
    match host {
        Some(h) => if arxiv_host(h) {
            identifier_in_path(path)
        } else {
            None
        },
        None => None,
    }
}

/// What `text` says as an identifier, given what became of reading it as an
/// absolute address: `url` holds the address's host and path, or nothing
/// where `text` is no address. Blank text says nothing; an address must name
/// the identifier; any other text must be the identifier.
pub open spec fn identifier_given(
    text: Seq<char>,
    url: Option<(Option<Seq<char>>, Seq<char>)>,
) -> Option<(Seq<char>, Option<u32>)> {
    if trimmed(text).len() == 0 {
        None
    } else {
        match url {
            Some((host, path)) => identifier_in_url(host, path),
            None => plain_arxiv_id(trimmed(text)),
        }
    }
}

/// What `text` says as an identifier: a bare identifier, or an address on
/// arxiv.org that names one.
pub open spec fn arxiv_identifier(text: Seq<char>) -> Option<(Seq<char>, Option<u32>)> {
    identifier_given(text, absolute_url(trimmed(text)))
}

fn strip_slashes(s: &Vec<char>) -> (r: Vec<char>)
    ensures
        r@ == stripped(s@, slash()),
{
    let n = s.len();
    let mut a: usize = 0;
    while a < n && s[a] == '/'
        invariant
            a <= n == s.len(),
            forall|i: int| 0 <= i < a ==> #[trigger] s@[i] == '/',
        decreases n - a,
    {
        a += 1;
    }
    proof {
        leading_is(s@, slash(), a as int);
    }
    if a == n {
        return Vec::new();
    }
    let mut b: usize = n;
    while b > a && s[b - 1] == '/'
        invariant
            a <= b <= n == s.len(),
            a < n,
            s@[a as int] != '/',
            forall|i: int| b <= i < n ==> #[trigger] s@[i] == '/',
        decreases b,
    {
        b -= 1;
    }
    proof {
        trailing_is(s@, slash(), n - b);
    }
    slice_of(s, a, b)
}

fn is_arxiv_host(host: &str) -> (r: bool)
    ensures
        r == arxiv_host(host@),
{
    let h = lowered_chars(&chars_of(host));
    same_chars(&h, &chars_of("arxiv.org")) || same_chars(&h, &chars_of("www.arxiv.org"))
}

fn read_path(path: &str) -> (r: Option<(String, Option<u32>)>)
    ensures
        identity_view(r) == identifier_in_path(path@),
{
    let p = strip_slashes(&chars_of(path));
    proof {
        reveal_strlit("abs/");
        reveal_strlit("pdf/");
        reveal_strlit(".pdf");
    }
    if has_prefix(&p, &chars_of("abs/")) {
        let rest = slice_of(&p, 4, p.len());
        assert(rest@ == p@.skip(4));
        parse_plain_arxiv_id(text_of(&rest).as_str())
    } else if has_prefix(&p, &chars_of("pdf/")) {
        let rest = slice_of(&p, 4, p.len());
        assert(rest@ == p@.skip(4));
        if has_suffix(&rest, &chars_of(".pdf")) {
            let stem = slice_of(&rest, 0, rest.len() - 4);
            assert(stem@ == rest@.take(rest@.len() - 4));
            parse_plain_arxiv_id(text_of(&stem).as_str())
        } else {
            parse_plain_arxiv_id(text_of(&rest).as_str())
        }
    } else {
        None
    }
}

/// Reads `value` as an identifier, given what became of reading it as an
/// absolute address.
pub fn identifier_with_url(value: &str, url: Option<UrlParts>) -> (r: Option<
    (String, Option<u32>),
>)
    ensures
        identity_view(r) == identifier_given(value@, parts_view(url)),
        well_read(identity_view(r)),
{
    proof {
        identifier_read_has_a_shape(value@, parts_view(url));
    }
    let t = trim(&chars_of(value));
    if t.len() == 0 {
        return None;
    }
    match url {
        Some(parts) => match parts.host {
            Some(host) => {
                if is_arxiv_host(host.as_str()) {
                    read_path(parts.path.as_str())
                } else {
                    None
                }
            },
            None => None,
        },
        None => parse_plain_arxiv_id(text_of(&t).as_str()),
    }
}

/// Reads what a user handed in: a bare identifier, or an address on
/// arxiv.org that names one. The result is the identifier in lower case and
/// the version asked for, or nothing where the input is neither. An input
/// without a colon is no address, and is read as a bare identifier.
pub fn parse_arxiv_input(value: &str) -> (r: Option<(String, Option<u32>)>)
    ensures
        identity_view(r) == arxiv_identifier(value@),
        !value@.contains(':') ==> identity_view(r) == identifier_given(value@, None),
        well_read(identity_view(r)),
{
    let t = trim(&chars_of(value));
    if t.len() == 0 {
        return None;
    }
    let url = split_url(text_of(&t).as_str());
    proof {
        stripped_is_within(value@, space());
        if t@.contains(':') {
            let i = choose|i: int| 0 <= i < t@.len() && t@[i] == ':';
            assert(value@.contains(t@[i]));
        }
    }
    identifier_with_url(value, url)
}

/// Whether `mark` is a version mark or nothing: `v` and one digit or more
/// that denote a version.
pub open spec fn version_mark(mark: Seq<char>) -> bool {
    mark.len() == 0 || (mark.len() >= 2 && mark[0] == 'v' && all_digits(mark.skip(1))
        && version_of(mark.skip(1)) is Some)
}

/// The version that a version mark asks for; none where there is no mark.
pub open spec fn marked_version(mark: Seq<char>) -> Option<u32> {
    if mark.len() == 0 {
        None
    } else {
        version_of(mark.skip(1))
    }
}

/// An identifier with or without a version mark begins with a character of
/// its archive name or a digit, ends with a digit, and has nine characters
/// or more.
proof fn identifier_ends(base: Seq<char>, mark: Seq<char>)
    requires
        base_shape(base),
        version_mark(mark),
    ensures
        (base + mark).len() >= 9,
        archive_char((base + mark)[0]) || digit((base + mark)[0]),
        digit((base + mark).last()),
{
    let id = base + mark;
    assert(id[0] == base[0]);
    if mark.len() == 0 {
        assert(id.last() == base[base.len() - 1]);
    } else {
        assert(id.last() == mark.skip(1)[mark.len() - 2]);
    }
}

/// What an identifier with a version mark says when it stands alone.
proof fn identifier_alone(base: Seq<char>, mark: Seq<char>)
    requires
        base_shape(base),
        version_mark(mark),
    ensures
        plain_identifier(base + mark) == Some((lowered(base), marked_version(mark))),
{
    let id = base + mark;
    if mark.len() == 0 {
        assert(id == base);
    } else {
        let k = mark.len() - 1;
        assert forall|i: int| id.len() - k <= i < id.len() implies digit(#[trigger] id[i]) by {
            assert(id[i] == mark.skip(1)[i - base.len() - 1]);
        }
        assert(id[id.len() - k - 1] == 'v');
        trailing_is(id, digits(), k);
        assert(!legacy_base(id)) by {
            if k >= 8 {
                assert(digit(id[id.len() - 8]));
            } else if k < 7 {
                assert(!digit(id[id.len() - k - 1]));
            }
        }
        assert(!modern_base(id));
        assert(id.take(base.len() as int) == base);
        assert(id.skip(base.len() as int + 1) == mark.skip(1));
    }
}

/// A text between a slash and a character that is none is what is left of
/// it without the slashes at its ends.
proof fn one_slash_stripped(p: Seq<char>)
    requires
        p.len() > 0,
        p[0] != '/',
        p.last() != '/',
    ensures
        stripped(seq!['/'] + p, slash()) == p,
{
    let a = seq!['/'] + p;
    assert(a[1] == p[0]);
    assert(a.last() == p.last());
    leading_is(a, slash(), 1);
    trailing_is(a, slash(), 0);
    assert(a.subrange(1, a.len() as int) == p);
}

/// A text that begins with no slash and ends with a digit is what a path
/// names when it stands behind `/abs/`.
proof fn path_names_abs(id: Seq<char>)
    requires
        id.len() > 0,
        digit(id.last()),
    ensures
        identifier_in_path("/abs/"@ + id) == plain_arxiv_id(id),
{
    reveal_strlit("/abs/");
    reveal_strlit("abs/");
    let p = "abs/"@ + id;
    assert("/abs/"@ + id == seq!['/'] + p);
    assert(p.last() == id.last());
    one_slash_stripped(p);
    assert(p.take(4) == "abs/"@);
    assert(p.skip(4) == id);
}

/// The same behind `/pdf/`.
proof fn path_names_pdf(id: Seq<char>)
    requires
        id.len() > 0,
        digit(id.last()),
    ensures
        identifier_in_path("/pdf/"@ + id) == plain_arxiv_id(id),
{
    reveal_strlit("/pdf/");
    reveal_strlit("abs/");
    reveal_strlit("pdf/");
    reveal_strlit(".pdf");
    let p = "pdf/"@ + id;
    assert("/pdf/"@ + id == seq!['/'] + p);
    assert(p.last() == id.last());
    one_slash_stripped(p);
    assert(p.take(4) == "pdf/"@);
    assert(p.skip(4) == id);
    assert(p.take(4)[0] == 'p');
    if ends_with(id, ".pdf"@) {
        assert(id.skip(id.len() - 4)[3] == id.last());
    }
}

/// The same behind `/pdf/` and before `.pdf`.
proof fn path_names_pdf_file(id: Seq<char>)
    requires
        id.len() > 0,
    ensures
        identifier_in_path("/pdf/"@ + id + ".pdf"@) == plain_arxiv_id(id),
{
    reveal_strlit("/pdf/");
    reveal_strlit("abs/");
    reveal_strlit("pdf/");
    reveal_strlit(".pdf");
    let p = "pdf/"@ + id + ".pdf"@;
    let rest = id + ".pdf"@;
    assert("/pdf/"@ + id + ".pdf"@ == seq!['/'] + p);
    assert(p.last() == 'f');
    one_slash_stripped(p);
    assert(p.take(4) == "pdf/"@);
    assert(p.skip(4) == rest);
    assert(p.take(4)[0] == 'p');
    assert(rest.skip(rest.len() - 4) == ".pdf"@);
    assert(rest.take(rest.len() - 4) == id);
}

/// An identifier of one of the two shapes, with or without a version mark,
/// says the same wherever it stands: alone, or in an address on arxiv.org
/// behind `/abs/`, behind `/pdf/`, or behind `/pdf/` and before `.pdf`. What
/// it says is the identifier in lower case, and the version of the mark.
pub proof fn identifier_says_the_same_in_every_form(
    base: Seq<char>,
    mark: Seq<char>,
    host: Seq<char>,
)
    requires
        base_shape(base),
        version_mark(mark),
        arxiv_host(host),
    ensures
        plain_arxiv_id(base + mark) == Some((lowered(base), marked_version(mark))),
        identifier_given(base + mark, None) == plain_arxiv_id(base + mark),
        identifier_in_url(Some(host), "/abs/"@ + (base + mark)) == plain_arxiv_id(base + mark),
        identifier_in_url(Some(host), "/pdf/"@ + (base + mark)) == plain_arxiv_id(base + mark),
        identifier_in_url(Some(host), "/pdf/"@ + (base + mark) + ".pdf"@) == plain_arxiv_id(
            base + mark,
        ),
{
    let id = base + mark;
    identifier_ends(base, mark);
    identifier_alone(base, mark);
    stripped_is_same(id, space());
    stripped_is_same(trimmed(id), space());
    path_names_abs(id);
    path_names_pdf(id);
    path_names_pdf_file(id);
}

/// An identifier of one of the two shapes keeps its shape in lower case,
/// and lower case is settled: lowering it once more changes nothing.
pub proof fn lowered_keeps_shape(b: Seq<char>)
    requires
        base_shape(b),
    ensures
        base_shape(lowered(b)),
        lowered(lowered(b)) == lowered(b),
{
    let l = lowered(b);
    if legacy_base(b) {
        assert forall|i: int| 0 <= i < l.len() - 8 implies archive_char(#[trigger] l[i]) by {
            assert(archive_char(b[i]));
        }
        assert forall|i: int| l.len() - 7 <= i < l.len() implies digit(#[trigger] l[i]) by {
            assert(digit(b[i]));
        }
        assert(legacy_base(l));
    } else {
        assert forall|i: int| 0 <= i < 4 implies digit(#[trigger] l[i]) by {
            assert(digit(b[i]));
        }
        assert forall|i: int| 5 <= i < l.len() implies digit(#[trigger] l[i]) by {
            assert(digit(b[i]));
        }
        assert(modern_base(l));
    }
    assert(lowered(l) =~= l);
}

/// Whatever is read as an identifier has one of the two shapes and is in
/// lower case, and the version read with it, if any, is 1 at least,
/// whether it was read from a bare text or from an address.
pub proof fn identifier_read_has_a_shape(
    text: Seq<char>,
    url: Option<(Option<Seq<char>>, Seq<char>)>,
)
    ensures
        well_read(identifier_given(text, url)),
        well_read(plain_identifier(text)),
{
    assert forall|t: Seq<char>| #[trigger] plain_identifier(t) is Some implies ({
        let base = plain_identifier(t).unwrap().0;
        let version = plain_identifier(t).unwrap().1;
        base_shape(base) && lowered(base) == base && (version matches Some(v) ==> v >= 1)
    }) by {
        let cut = t.len() - trailing(t, digits()) - 1;
        if base_shape(t) {
            lowered_keeps_shape(t);
        } else {
            lowered_keeps_shape(t.take(cut));
        }
    }
}

/// An identifier in lower case, `v` and a version of 1 or more in decimal
/// notation read as that identifier in that version, alone and in the two
/// addresses that are made of them.
pub proof fn versioned_identifier_reads_back(base: Seq<char>, version: u32)
    requires
        base_shape(base),
        lowered(base) == base,
        version >= 1,
    ensures
        plain_arxiv_id(base + seq!['v'] + decimal(version as nat)) == Some((base, Some(version))),
        identifier_in_url(
            Some("arxiv.org"@),
            "/abs/"@ + (base + seq!['v'] + decimal(version as nat)),
        ) == Some((base, Some(version))),
        identifier_in_url(
            Some("arxiv.org"@),
            "/pdf/"@ + (base + seq!['v'] + decimal(version as nat)) + ".pdf"@,
        ) == Some((base, Some(version))),
{
    let digits = decimal(version as nat);
    let mark = seq!['v'] + digits;
    decimal_reads_back(version as nat);
    assert(mark.skip(1) =~= digits);
    assert(base + seq!['v'] + digits =~= base + mark);
    reveal_strlit("arxiv.org");
    assert(lowered("arxiv.org"@) =~= "arxiv.org"@);
    identifier_says_the_same_in_every_form(base, mark, "arxiv.org"@);
}

/// An address says nothing where it has no host, where its host is neither
/// `arxiv.org` nor `www.arxiv.org`, or where its path, without the slashes
/// at its ends, begins with neither `abs/` nor `pdf/`.
pub proof fn other_addresses_say_nothing(text: Seq<char>, host: Option<Seq<char>>, path: Seq<char>)
    requires
        host is None || !arxiv_host(host->0) || !(starts_with(stripped(path, slash()), "abs/"@)
            || starts_with(stripped(path, slash()), "pdf/"@)),
    ensures
        identifier_given(text, Some((host, path))) is None,
{
}

} // verus!
