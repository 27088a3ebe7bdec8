//! What a scan of a directory found: the PDF files, in the order of their
//! names without regard to case, and what went wrong on the way.

use crate::text::{chars_of, extend, lowered, lowered_chars, same_chars, text_of, views};
use vstd::prelude::*;

verus! {

/// One PDF file that a scan found.
#[derive(Debug, Clone)]
pub struct PdfFile {
    pub name: String,
    pub path: String,
    /// The size of the file in bytes.
    pub size: u64,
}

/// A PDF file as character sequences.
pub struct PdfFileView {
    pub name: Seq<char>,
    pub path: Seq<char>,
    pub size: u64,
}

impl View for PdfFile {
    type V = PdfFileView;

    open spec fn view(&self) -> PdfFileView {
        PdfFileView { name: self.name@, path: self.path@, size: self.size }
    }
}

/// What a scan found.
#[derive(Debug, Clone)]
pub struct ScanResult {
    /// The PDF files, in the order of their names without regard to case.
    pub files: Vec<PdfFile>,
    /// The number of files.
    pub total_count: usize,
    /// The number of errors.
    pub error_count: usize,
    /// One message for each file that could not be looked at.
    pub errors: Vec<String>,
}

/// The result of a scan as character sequences.
pub struct ScanResultView {
    pub files: Seq<PdfFileView>,
    pub total_count: nat,
    pub error_count: nat,
    pub errors: Seq<Seq<char>>,
}

/// What is known of one file.
#[derive(Debug, Clone)]
pub struct FileMetadata {
    pub name: String,
    pub path: String,
    /// The size of the file in bytes.
    pub size: u64,
    /// When the file was last changed, in seconds since 1970, where that
    /// is known.
    pub modified: Option<i64>,
}

/// What is known of one file, as character sequences.
pub struct FileMetadataView {
    pub name: Seq<char>,
    pub path: Seq<char>,
    pub size: u64,
    pub modified: Option<i64>,
}

impl View for FileMetadata {
    type V = FileMetadataView;

    open spec fn view(&self) -> FileMetadataView {
        FileMetadataView {
            name: self.name@,
            path: self.path@,
            size: self.size,
            modified: self.modified,
        }
    }
}

/// The files of `v` as character sequences.
pub open spec fn file_views(v: Seq<PdfFile>) -> Seq<PdfFileView> {
    Seq::new(v.len(), |i: int| v[i]@)
}

impl View for ScanResult {
    type V = ScanResultView;

    open spec fn view(&self) -> ScanResultView {
        ScanResultView {
            files: file_views(self.files@),
            total_count: self.total_count as nat,
            error_count: self.error_count as nat,
            errors: views(self.errors@),
        }
    }
}

/// Whether a file with this extension counts as a PDF: the extension is
/// `pdf`, whatever the case of its letters.
pub open spec fn pdf_extension(extension: Seq<char>) -> bool {
    lowered(extension) == "pdf"@
}

/// Whether a file with this extension counts as a PDF.
pub fn is_pdf_extension(extension: &str) -> (r: bool)
    ensures
        r == pdf_extension(extension@),
{
    same_chars(&lowered_chars(&chars_of(extension)), &chars_of("pdf"))
}

/// Whether `a` stands before `b`, or is `b`, in the order of the
/// dictionary, where characters go by their numbers.
pub open spec fn not_after(a: Seq<char>, b: Seq<char>) -> bool
    decreases a.len(),
{
    if a.len() == 0 {
        true
    } else if b.len() == 0 {
        false
    } else if a[0] != b[0] {
        a[0] < b[0]
    } else {
        not_after(a.drop_first(), b.drop_first())
    }
}

/// Of two texts one is not after the other.
pub proof fn order_is_total(a: Seq<char>, b: Seq<char>)
    ensures
        not_after(a, b) || not_after(b, a),
    decreases a.len(),
{
    if a.len() > 0 && b.len() > 0 && a[0] == b[0] {
        order_is_total(a.drop_first(), b.drop_first());
    }
}

/// What is not after a text that is not after a third is not after the
/// third.
pub proof fn order_is_transitive(a: Seq<char>, b: Seq<char>, c: Seq<char>)
    requires
        not_after(a, b),
        not_after(b, c),
    ensures
        not_after(a, c),
    decreases a.len(),
{
    if a.len() > 0 && b.len() > 0 && c.len() > 0 && a[0] == b[0] && b[0] == c[0] {
        order_is_transitive(a.drop_first(), b.drop_first(), c.drop_first());
    }
}

/// Whether `a` is not after `b` in the order of the dictionary.
pub fn is_not_after(a: &Vec<char>, b: &Vec<char>) -> (r: bool)
    ensures
        r == not_after(a@, b@),
{
    let mut i: usize = 0;
    assert(a@.skip(0) == a@ && b@.skip(0) == b@);
    while i < a.len() && i < b.len()
        invariant
            i <= a.len(),
            i <= b.len(),
            not_after(a@, b@) == not_after(a@.skip(i as int), b@.skip(i as int)),
        decreases a.len() - i,
    {
        if a[i] != b[i] {
            return a[i] < b[i];
        }
        assert(a@.skip(i as int).drop_first() == a@.skip(i + 1));
        assert(b@.skip(i as int).drop_first() == b@.skip(i + 1));
        i += 1;
    }
    i == a.len()
}

/// The items `sorted` with `item` among them: behind every item whose key
/// is not after its own, before the others.
pub open spec fn inserted<T>(sorted: Seq<(Seq<char>, T)>, item: (Seq<char>, T)) -> Seq<
    (Seq<char>, T),
>
    decreases sorted.len(),
{
    if sorted.len() == 0 {
        seq![item]
    } else if not_after(sorted.last().0, item.0) {
        sorted.push(item)
    } else {
        inserted(sorted.drop_last(), item).push(sorted.last())
    }
}

/// The items in the order of their keys; items with the same key keep the
/// order in which they came.
pub open spec fn by_key<T>(items: Seq<(Seq<char>, T)>) -> Seq<(Seq<char>, T)>
    decreases items.len(),
{
    if items.len() == 0 {
        Seq::empty()
    } else {
        inserted(by_key(items.drop_last()), items.last())
    }
}

/// Whether the keys of the items never go back.
pub open spec fn in_order<T>(items: Seq<(Seq<char>, T)>) -> bool {
    forall|i: int, j: int| 0 <= i < j < items.len() ==> not_after(items[i].0, items[j].0)
}

/// The place of an item among sorted items is behind the last one whose key
/// is not after its own.
pub proof fn inserted_at<T>(sorted: Seq<(Seq<char>, T)>, item: (Seq<char>, T), at: int)
    requires
        0 <= at <= sorted.len(),
        forall|i: int| at <= i < sorted.len() ==> !not_after(#[trigger] sorted[i].0, item.0),
        at > 0 ==> not_after(sorted[at - 1].0, item.0),
    ensures
        inserted(sorted, item) == sorted.insert(at, item),
    decreases sorted.len(),
{
    if sorted.len() == 0 {
        assert(sorted.insert(0, item) == seq![item]);
    } else if at == sorted.len() {
        assert(sorted.insert(at, item) == sorted.push(item));
    } else {
        let front = sorted.drop_last();
        assert(!not_after(sorted[sorted.len() - 1].0, item.0));
        assert forall|i: int| at <= i < front.len() implies !not_after(
            #[trigger] front[i].0,
            item.0,
        ) by {
            assert(front[i] == sorted[i]);
        }
        inserted_at(front, item, at);
        assert(front.insert(at, item).push(sorted.last()) == sorted.insert(at, item));
    }
}

/// An item that is put among items in order leaves them in order, and is
/// one more among the same items.
pub proof fn inserted_keeps_order<T>(sorted: Seq<(Seq<char>, T)>, item: (Seq<char>, T))
    requires
        in_order(sorted),
    ensures
        in_order(inserted(sorted, item)),
        inserted(sorted, item).to_multiset() == sorted.to_multiset().insert(item),
        inserted(sorted, item).len() == sorted.len() + 1,
    decreases sorted.len(),
{
    broadcast use vstd::seq_lib::group_to_multiset_ensures;

    if sorted.len() == 0 {
        assert(sorted.push(item) == seq![item]);
    } else if not_after(sorted.last().0, item.0) {
        let r = sorted.push(item);
        assert forall|i: int, j: int| 0 <= i < j < r.len() implies not_after(r[i].0, r[j].0) by {
            if j == sorted.len() {
                if i < sorted.len() - 1 {
                    order_is_transitive(sorted[i].0, sorted.last().0, item.0);
                }
            }
        }
    } else {
        let front = sorted.drop_last();
        let last = sorted.last();
        assert forall|i: int, j: int| 0 <= i < j < front.len() implies not_after(
            front[i].0,
            front[j].0,
        ) by {
            assert(front[i] == sorted[i] && front[j] == sorted[j]);
        }
        inserted_keeps_order(front, item);
        let mid = inserted(front, item);
        let r = mid.push(last);
        order_is_total(last.0, item.0);
        assert forall|i: int, j: int| 0 <= i < j < r.len() implies not_after(r[i].0, r[j].0) by {
            if j == mid.len() {
                // Every item of `mid` is `item` or one of `front`.
                assert(mid.to_multiset().count(mid[i]) > 0);
                if mid[i] != item {
                    assert(front.to_multiset().count(mid[i]) > 0);
                    let k = choose|k: int| 0 <= k < front.len() && front[k] == mid[i];
                    assert(front[k] == sorted[k]);
                }
            }
        }
        assert(sorted == front.push(last));
        assert(front.to_multiset().insert(item).insert(last) =~= front.to_multiset().insert(
            last,
        ).insert(item));
    }
}

/// Sorting by key puts the items in order and keeps every one of them, as
/// often as it came.
pub proof fn by_key_sorts<T>(items: Seq<(Seq<char>, T)>)
    ensures
        in_order(by_key(items)),
        by_key(items).to_multiset() == items.to_multiset(),
        by_key(items).len() == items.len(),
    decreases items.len(),
{
    broadcast use vstd::seq_lib::group_to_multiset_ensures;

    if items.len() > 0 {
        by_key_sorts(items.drop_last());
        inserted_keeps_order(by_key(items.drop_last()), items.last());
        assert(items == items.drop_last().push(items.last()));
    }
}

/// What `str::to_lowercase` makes of `s`: `s` in lower case, as Unicode
/// defines it.
pub uninterp spec fn lowercase_of(s: Seq<char>) -> Seq<char>;

/// `s` in lower case, by `str::to_lowercase`. Nothing is proved of the
/// lowering itself: the contract only gives its outcome the name
/// `lowercase_of`.
#[verifier::external_body]
fn lowercase(s: &str) -> (r: String)
    ensures
        r@ == lowercase_of(s@),
{
    s.to_lowercase()
}

/// Files with their keys, as character sequences.
pub open spec fn keyed_views(items: Seq<(String, PdfFile)>) -> Seq<(Seq<char>, PdfFileView)> {
    Seq::new(items.len(), |i: int| (items[i].0@, items[i].1@))
}

/// What the items hold, without their keys.
pub open spec fn unkeyed(items: Seq<(Seq<char>, PdfFileView)>) -> Seq<PdfFileView> {
    Seq::new(items.len(), |i: int| items[i].1)
}

/// Each file with its name in lower case as its key.
pub open spec fn keyed_by_name(files: Seq<PdfFileView>) -> Seq<(Seq<char>, PdfFileView)> {
    Seq::new(files.len(), |i: int| (lowercase_of(files[i].name), files[i]))
}

/// The result of a scan that found the given files and met the given
/// errors: the files in the order of their names in lower case, the number
/// of files, the number of errors, and the errors as they came.
pub open spec fn scan_result_of(files: Seq<PdfFileView>, errors: Seq<Seq<char>>) -> ScanResultView {
    ScanResultView {
        files: unkeyed(by_key(keyed_by_name(files))),
        total_count: files.len(),
        error_count: errors.len(),
        errors,
    }
}

/// Pairs of a key and a file, as character sequences.
spec fn pair_views(items: Seq<(Vec<char>, PdfFile)>) -> Seq<(Seq<char>, PdfFileView)> {
    Seq::new(items.len(), |i: int| (items[i].0@, items[i].1@))
}

/// The files in the order of their keys; files with the same key keep the
/// order in which they came.
pub fn order_keyed(items: Vec<(String, PdfFile)>) -> (r: Vec<PdfFile>)
    ensures
        file_views(r@) == unkeyed(by_key(keyed_views(items@))),
{
    let ghost all = keyed_views(items@);
    let mut rest = items;
    let mut sorted: Vec<(Vec<char>, PdfFile)> = Vec::new();
    let ghost mut done: int = 0;
    assert(all.take(0) == Seq::<(Seq<char>, PdfFileView)>::empty());
    assert(pair_views(sorted@) == by_key(all.take(0)));
    while rest.len() > 0
        invariant
            0 <= done <= all.len(),
            keyed_views(rest@) == all.skip(done),
            pair_views(sorted@) == by_key(all.take(done)),
        decreases rest.len(),
    {
        let ghost old_rest = rest@;
        let ghost first = all[done];
        let (key, file) = rest.remove(0);
        proof {
            assert(keyed_views(old_rest).len() == all.skip(done).len());
            assert(keyed_views(old_rest)[0] == all.skip(done)[0]);
            assert forall|i: int| 0 <= i < rest@.len() implies keyed_views(rest@)[i] == all.skip(
                done + 1,
            )[i] by {
                assert(rest@[i] == old_rest[i + 1]);
                assert(keyed_views(old_rest)[i + 1] == all.skip(done)[i + 1]);
            }
            assert(keyed_views(rest@) =~= all.skip(done + 1));
            assert((key@, file@) == first);
        }
        let key_chars = chars_of(key.as_str());
        let mut at: usize = sorted.len();
        while at > 0 && !is_not_after(&sorted[at - 1].0, &key_chars)
            invariant
                at <= sorted.len(),
                forall|i: int|
                    at <= i < sorted.len() ==> !not_after(
                        #[trigger] pair_views(sorted@)[i].0,
                        key_chars@,
                    ),
            decreases at,
        {
            at -= 1;
        }
        let ghost old_sorted = pair_views(sorted@);
        proof {
            if at > 0 {
                assert(old_sorted[at - 1].0 == sorted@[at - 1].0@);
            }
            inserted_at(old_sorted, first, at as int);
            assert(all.take(done + 1).drop_last() == all.take(done));
            assert(all.take(done + 1).last() == first);
        }
        sorted.insert(at, (key_chars, file));
        assert(pair_views(sorted@) == old_sorted.insert(at as int, first));
        proof {
            done = done + 1;
        }
    }
    assert(all.take(done) == all);
    let mut files: Vec<PdfFile> = Vec::new();
    let ghost pairs = pair_views(sorted@);
    let ghost mut moved: int = 0;
    while sorted.len() > 0
        invariant
            0 <= moved <= pairs.len(),
            pair_views(sorted@) == pairs.skip(moved),
            file_views(files@) == unkeyed(pairs.take(moved)),
        decreases sorted.len(),
    {
        let ghost old_sorted = sorted@;
        let ghost old_files = files@;
        let (_, file) = sorted.remove(0);
        files.push(file);
        proof {
            assert(pair_views(old_sorted).len() == pairs.skip(moved).len());
            assert(pair_views(old_sorted)[0] == pairs.skip(moved)[0]);
            assert(file@ == pairs[moved].1);
            assert forall|i: int| 0 <= i < sorted@.len() implies pair_views(sorted@)[i]
                == pairs.skip(moved + 1)[i] by {
                assert(sorted@[i] == old_sorted[i + 1]);
                assert(pair_views(old_sorted)[i + 1] == pairs.skip(moved)[i + 1]);
            }
            assert(pair_views(sorted@) =~= pairs.skip(moved + 1));
            assert(file_views(old_files).len() == moved);
            assert forall|i: int| 0 <= i < moved + 1 implies file_views(files@)[i] == unkeyed(
                pairs.take(moved + 1),
            )[i] by {
                if i < moved {
                    assert(files@[i] == old_files[i]);
                    assert(file_views(old_files)[i] == unkeyed(pairs.take(moved))[i]);
                }
            }
            assert(file_views(files@) =~= unkeyed(pairs.take(moved + 1)));
        }
        proof {
            moved = moved + 1;
        }
    }
    assert(pairs.take(moved) == pairs);
    files
}

/// The result of a scan that found the given files and met the given
/// errors.
pub fn scan_result(files: Vec<PdfFile>, errors: Vec<String>) -> (r: ScanResult)
    ensures
        r@ == scan_result_of(file_views(files@), views(errors@)),
{
    let total_count = files.len();
    let error_count = errors.len();
    let ghost found = file_views(files@);
    let mut rest = files;
    let mut keyed: Vec<(String, PdfFile)> = Vec::new();
    let ghost mut done: int = 0;
    while rest.len() > 0
        invariant
            0 <= done <= found.len(),
            file_views(rest@) == found.skip(done),
            keyed_views(keyed@) == keyed_by_name(found.take(done)),
        decreases rest.len(),
    {
        let ghost old_rest = rest@;
        let ghost old_keyed = keyed@;
        let file = rest.remove(0);
        proof {
            assert(file_views(old_rest).len() == found.skip(done).len());
            assert(file_views(old_rest)[0] == found.skip(done)[0]);
            assert(file@ == found[done]);
            assert forall|i: int| 0 <= i < rest@.len() implies file_views(rest@)[i] == found.skip(
                done + 1,
            )[i] by {
                assert(rest@[i] == old_rest[i + 1]);
                assert(file_views(old_rest)[i + 1] == found.skip(done)[i + 1]);
            }
            assert(file_views(rest@) =~= found.skip(done + 1));
        }
        let key = lowercase(file.name.as_str());
        keyed.push((key, file));
        proof {
            assert(keyed_views(old_keyed).len() == done);
            assert forall|i: int| 0 <= i < done + 1 implies keyed_views(keyed@)[i]
                == keyed_by_name(found.take(done + 1))[i] by {
                if i < done {
                    assert(keyed@[i] == old_keyed[i]);
                    assert(keyed_views(old_keyed)[i] == keyed_by_name(found.take(done))[i]);
                }
            }
            assert(keyed_views(keyed@) =~= keyed_by_name(found.take(done + 1)));
        }
        proof {
            done = done + 1;
        }
    }
    assert(found.take(done) == found);
    ScanResult { files: order_keyed(keyed), total_count, error_count, errors }
}

/// The new name of a file: the name asked for, with a dot and the old
/// extension behind it where the file has one.
pub open spec fn renamed(new_name: Seq<char>, extension: Option<Seq<char>>) -> Seq<char> {
    match extension {
        Some(ext) => new_name + seq!['.'] + ext,
        None => new_name,
    }
}

/// The new name of a file that keeps its extension.
pub fn renamed_file_name(new_name: &str, extension: Option<&str>) -> (r: String)
    ensures
        r@ == renamed(
            new_name@,
            match extension {
                Some(ext) => Some(ext@),
                None => None,
            },
        ),
{
    match extension {
        Some(ext) => {
            let mut out = chars_of(new_name);
            out.push('.');
            extend(&mut out, &chars_of(ext));
            text_of(&out)
        },
        None => String::from_str(new_name),
    }
}

/// The result of a scan lists as many files as were found, each of them a
/// file that was found, and lists them so that their names in lower case
/// never go back; it counts the files and the errors.
pub proof fn scan_lists_files_in_order(files: Seq<PdfFileView>, errors: Seq<Seq<char>>)
    ensures
        scan_result_of(files, errors).files.len() == files.len(),
        scan_result_of(files, errors).total_count == files.len(),
        scan_result_of(files, errors).error_count == errors.len(),
        forall|i: int|
            0 <= i < files.len() ==> files.contains(#[trigger] scan_result_of(files, errors).files[i]),
        forall|i: int, j: int|
            0 <= i < j < files.len() ==> not_after(
                lowercase_of(scan_result_of(files, errors).files[i].name),
                lowercase_of(scan_result_of(files, errors).files[j].name),
            ),
{
    broadcast use vstd::seq_lib::group_to_multiset_ensures;

    let keyed = keyed_by_name(files);
    let sorted = by_key(keyed);
    by_key_sorts(keyed);
    assert forall|i: int| 0 <= i < sorted.len() implies files.contains(#[trigger] sorted[i].1)
        && sorted[i].0 == lowercase_of(sorted[i].1.name) by {
        assert(sorted.to_multiset().count(sorted[i]) > 0);
        assert(keyed.to_multiset().count(sorted[i]) > 0);
        let k = choose|k: int| 0 <= k < keyed.len() && keyed[k] == sorted[i];
        assert(files[k] == sorted[i].1);
    }
    let listed = scan_result_of(files, errors).files;
    assert forall|i: int| 0 <= i < files.len() implies files.contains(#[trigger] listed[i]) by {
        assert(listed[i] == sorted[i].1);
    }
    assert forall|i: int, j: int| 0 <= i < j < files.len() implies not_after(
        lowercase_of(listed[i].name),
        lowercase_of(listed[j].name),
    ) by {
        assert(listed[i] == sorted[i].1 && listed[j] == sorted[j].1);
        assert(not_after(sorted[i].0, sorted[j].0));
    }
}

} // verus!
