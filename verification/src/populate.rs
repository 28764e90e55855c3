//! The class lists a cache-population run leaves beside its input list: which
//! file each failure class goes to, and what a run does with that file.
use vstd::prelude::*;

use crate::progress::FailedItem;
use crate::text::{chars_eq, chars_of, copy_range, dec_digits, ends_with, ends_with_chars, extend_chars, push_dec_u64, string_of};

verus! {

/// What `Path::file_stem` gives for `path`, as text.
pub uninterp spec fn file_stem_of(path: Seq<char>) -> Option<Seq<char>>;

/// What `Path::extension` gives for `path`, as text.
pub uninterp spec fn extension_of(path: Seq<char>) -> Option<Seq<char>>;

/// What `Path::with_file_name` gives for `path` and `name`, as text.
pub uninterp spec fn with_file_name_of(path: Seq<char>, name: Seq<char>) -> Seq<char>;

/// `Path::file_stem`, read back as text. A stem cut from a `&str` is valid
/// UTF-8, so `to_str` keeps it whole. The contract names the result
/// `file_stem_of`; the component rules of `std::path` are not restated.
#[verifier::external_body]
fn path_file_stem(path: &str) -> (r: Option<String>)
    ensures
        r.deep_view() == file_stem_of(path@),
{
    std::path::Path::new(path).file_stem().and_then(|s| s.to_str()).map(|s| s.to_string())
}

/// `Path::extension`, read back as text; named `extension_of`.
#[verifier::external_body]
fn path_extension(path: &str) -> (r: Option<String>)
    ensures
        r.deep_view() == extension_of(path@),
{
    std::path::Path::new(path).extension().and_then(|s| s.to_str()).map(|s| s.to_string())
}

/// `Path::with_file_name`, read back as text. Both inputs are UTF-8, so the
/// joined path is too and `to_string_lossy` changes nothing; named
/// `with_file_name_of`.
#[verifier::external_body]
fn path_with_file_name(path: &str, name: &str) -> (r: String)
    ensures
        r@ == with_file_name_of(path@, name@),
{
    std::path::Path::new(path).with_file_name(name).to_string_lossy().into_owned()
}

/// The stem with a class marker (`.failed` or `.missing`) taken off its end.
pub open spec fn class_base(stem: Seq<char>) -> Seq<char> {
    if ends_with(stem, ".failed"@) {
        stem.subrange(0, stem.len() - 7)
    } else if ends_with(stem, ".missing"@) {
        stem.subrange(0, stem.len() - 8)
    } else {
        stem
    }
}

/// The file name of the `kind` list for a list whose file stem and
/// extension are `stem` and `ext`: the base name (the stem without a class
/// marker), the class, and the extension, `cache_resources` and `nedb`
/// standing in for a missing stem or extension.
pub open spec fn class_list_name(stem: Option<Seq<char>>, ext: Option<Seq<char>>, kind: Seq<char>) -> Seq<char> {
    let e = match ext {
        Some(e) => e,
        None => "nedb"@,
    };
    let s = match stem {
        Some(s) => s,
        None => "cache_resources"@,
    };
    class_base(s) + "."@ + kind + "."@ + e
}

/// The file name of the `kind` list beside `src`.
pub open spec fn failure_list_name(src: Seq<char>, kind: Seq<char>) -> Seq<char> {
    class_list_name(file_stem_of(src), extension_of(src), kind)
}

pub open spec fn failure_list_of(src: Seq<char>, kind: Seq<char>) -> Seq<char> {
    with_file_name_of(src, failure_list_name(src, kind))
}

pub open spec fn opt_str_view(o: Option<&str>) -> Option<Seq<char>> {
    match o {
        Some(s) => Some(s@),
        None => None,
    }
}

/// The file name of the `kind` list, from the stem and extension of the
/// input list's path.
pub fn class_list_file_name(stem: Option<&str>, ext: Option<&str>, kind: &str) -> (r: String)
    ensures
        r@ == class_list_name(opt_str_view(stem), opt_str_view(ext), kind@),
{
    let ext = match ext {
        Some(e) => chars_of(e),
        None => chars_of("nedb"),
    };
    let stem = match stem {
        Some(s) => chars_of(s),
        None => chars_of("cache_resources"),
    };
    let failed = chars_of(".failed");
    let missing = chars_of(".missing");
    proof {
        reveal_strlit(".failed");
        reveal_strlit(".missing");
    }
    let base = if ends_with_chars(stem.as_slice(), failed.as_slice()) {
        copy_range(stem.as_slice(), 0, stem.len() - 7)
    } else if ends_with_chars(stem.as_slice(), missing.as_slice()) {
        copy_range(stem.as_slice(), 0, stem.len() - 8)
    } else {
        stem
    };
    let mut name = base;
    extend_chars(&mut name, chars_of(".").as_slice());
    extend_chars(&mut name, chars_of(kind).as_slice());
    extend_chars(&mut name, chars_of(".").as_slice());
    extend_chars(&mut name, ext.as_slice());
    string_of(name.as_slice())
}

/// The list path for one failure class beside `src`, e.g.
/// `cache_resources.failed.nedb`. A class marker already on the input is
/// replaced, not appended to, so a retry writes over its own list.
pub fn failure_list_path(src: &str, kind: &str) -> (r: String)
    ensures
        r@ == failure_list_of(src@, kind@),
{
    let ext = path_extension(src);
    let stem = path_file_stem(src);
    let ext_ref: Option<&str> = match &ext {
        Some(e) => Some(e.as_str()),
        None => None,
    };
    let stem_ref: Option<&str> = match &stem {
        Some(s) => Some(s.as_str()),
        None => None,
    };
    let name = class_list_file_name(stem_ref, ext_ref, kind);
    path_with_file_name(src, name.as_str())
}

/// The index of the last `c` in `n`, or -1 when there is none.
pub open spec fn last_index_of(n: Seq<char>, c: char) -> int
    decreases n.len(),
{
    if n.len() == 0 {
        -1
    } else if n.last() == c {
        n.len() - 1
    } else {
        last_index_of(n.drop_last(), c)
    }
}

/// The stem `Path::file_stem` documents for a file name: the whole name when
/// it has no `.` or only a leading one, else the part before the final `.`.
pub open spec fn stem_of_name(n: Seq<char>) -> Seq<char> {
    let d = last_index_of(n, '.');
    if d <= 0 {
        n
    } else {
        n.subrange(0, d)
    }
}

/// The extension `Path::extension` documents for a file name: none when it
/// has no `.` or only a leading one, else the part after the final `.`.
pub open spec fn extension_of_name(n: Seq<char>) -> Option<Seq<char>> {
    let d = last_index_of(n, '.');
    if d <= 0 {
        None
    } else {
        Some(n.subrange(d + 1, n.len() as int))
    }
}

proof fn lemma_last_dot(x: Seq<char>, y: Seq<char>)
    requires
        !y.contains('.'),
    ensures
        last_index_of(x + seq!['.'] + y, '.') == x.len(),
    decreases y.len(),
{
    let n = x + seq!['.'] + y;
    if y.len() == 0 {
        assert(n.last() == '.');
    } else {
        assert(n.last() == y.last());
        assert(y.contains(y.last()) ==> y.last() != '.') by {
            assert(y[y.len() - 1] == y.last());
        }
        assert(y.last() != '.') by {
            if y.last() == '.' {
                assert(y[y.len() - 1] == '.');
                assert(y.contains('.'));
            }
        }
        let yi = y.drop_last();
        assert(!yi.contains('.')) by {
            if yi.contains('.') {
                let k = choose|k: int| 0 <= k < yi.len() && yi[k] == '.';
                assert(y[k] == '.');
            }
        }
        lemma_last_dot(x, yi);
        assert(n.drop_last() =~= x + seq!['.'] + yi);
    }
}

/// Feeding a class list back in never stacks markers: the list name derived
/// from a list of class `k1`, read back into its stem and extension as
/// `Path` documents them, gives for class `k2` the same name the original
/// input gives for `k2` (and for `k2 == k1`, the list's own name).
pub proof fn law_class_marker_is_replaced(
    stem: Option<Seq<char>>,
    ext: Option<Seq<char>>,
    k1: Seq<char>,
    k2: Seq<char>,
)
    requires
        ext matches Some(e) ==> !e.contains('.'),
        k1 == "failed"@ || k1 == "missing"@,
        k2 == "failed"@ || k2 == "missing"@,
    ensures
        ({
            let n1 = class_list_name(stem, ext, k1);
            class_list_name(Some(stem_of_name(n1)), extension_of_name(n1), k2) == class_list_name(
                stem,
                ext,
                k2,
            )
        }),
{
    reveal_strlit("failed");
    reveal_strlit("missing");
    reveal_strlit(".failed");
    reveal_strlit(".missing");
    reveal_strlit(".");
    reveal_strlit("nedb");
    let e = match ext {
        Some(e) => e,
        None => "nedb"@,
    };
    assert(!e.contains('.')) by {
        if ext is None {
            if e.contains('.') {
                let k = choose|k: int| 0 <= k < e.len() && e[k] == '.';
                assert(false);
            }
        }
    }
    let s = match stem {
        Some(s) => s,
        None => "cache_resources"@,
    };
    let b = class_base(s);
    let p = b + "."@ + k1;
    let n1 = class_list_name(stem, ext, k1);
    assert(n1 =~= p + seq!['.'] + e);
    lemma_last_dot(p, e);
    assert(p.len() >= 1);
    assert(stem_of_name(n1) =~= p);
    assert(extension_of_name(n1) == Some(e)) by {
        assert(n1.subrange(p.len() as int + 1, n1.len() as int) =~= e);
    }
    if k1 == "failed"@ {
        assert(ends_with(p, ".failed"@)) by {
            assert(p.subrange(p.len() - 7, p.len() as int) =~= ".failed"@);
        }
        assert(p.subrange(0, p.len() - 7) =~= b);
        assert(class_base(p) == b);
    } else {
        assert(!ends_with(p, ".failed"@)) by {
            if ends_with(p, ".failed"@) {
                assert(p[p.len() - 2] == ".failed"@[5]);
            }
        }
        assert(ends_with(p, ".missing"@)) by {
            assert(p.subrange(p.len() - 8, p.len() as int) =~= ".missing"@);
        }
        assert(p.subrange(0, p.len() - 8) =~= b);
        assert(class_base(p) == b);
    }
}

/// The path's stem ends in a class marker: it is itself a class list.
pub open spec fn has_class_marker(path: Seq<char>) -> bool {
    match file_stem_of(path) {
        Some(s) => ends_with(s, ".failed"@) || ends_with(s, ".missing"@),
        None => false,
    }
}

/// Whether this path is itself one of the class lists a run writes.
pub fn carries_class_marker(path: &str) -> (b: bool)
    ensures
        b == has_class_marker(path@),
{
    match path_file_stem(path) {
        Some(s) => {
            let s = chars_of(s.as_str());
            ends_with_chars(s.as_slice(), chars_of(".failed").as_slice()) || ends_with_chars(
                s.as_slice(),
                chars_of(".missing").as_slice(),
            )
        },
        None => false,
    }
}

/// What a run does with the list of one failure class.
#[derive(Debug, Clone, PartialEq, Eq)]
pub enum FailureListAction {
    /// Leave every file as it is.
    Keep,
    /// Remove the list at this path if it exists: it is stale.
    RemoveStale(String),
    /// Write this run's failures to the list at this path.
    Write(String),
}

/// The action as plain values.
pub enum FailureListActionView {
    Keep,
    RemoveStale(Seq<char>),
    Write(Seq<char>),
}

impl View for FailureListAction {
    type V = FailureListActionView;

    open spec fn view(&self) -> FailureListActionView {
        match self {
            FailureListAction::Keep => FailureListActionView::Keep,
            FailureListAction::RemoveStale(p) => FailureListActionView::RemoveStale(p@),
            FailureListAction::Write(p) => FailureListActionView::Write(p@),
        }
    }
}

/// The action for the `kind` list of a run against `src`. With failures the
/// list is written. Without, a run against one class's list owns only that
/// class and leaves the other list alone; any other run removes the stale list.
pub open spec fn failure_list_action_of(src: Seq<char>, kind: Seq<char>, has_failures: bool) -> FailureListActionView {
    let path = failure_list_of(src, kind);
    if has_failures {
        FailureListActionView::Write(path)
    } else if path != src && has_class_marker(src) {
        FailureListActionView::Keep
    } else {
        FailureListActionView::RemoveStale(path)
    }
}

pub fn failure_list_action(src: &str, kind: &str, has_failures: bool) -> (r: FailureListAction)
    ensures
        r@ == failure_list_action_of(src@, kind@, has_failures),
{
    let path = failure_list_path(src, kind);
    if has_failures {
        return FailureListAction::Write(path);
    }
    let same = chars_eq(chars_of(path.as_str()).as_slice(), chars_of(src).as_slice());
    if !same && carries_class_marker(src) {
        FailureListAction::Keep
    } else {
        FailureListAction::RemoveStale(path)
    }
}


// ---------------------------------------------------------------------------
// The list body
// ---------------------------------------------------------------------------

#[verifier::external_type_specification]
#[verifier::external_body]
pub struct ExJsonError(serde_json::Error);

/// A hexadecimal digit, lower case.
pub open spec fn hex_digit(n: nat) -> char {
    if n < 10 {
        ((n + 48) as u32) as char
    } else {
        ((n + 87) as u32) as char
    }
}

/// How `serde_json` writes one character inside a string literal: the quote
/// and the backslash behind a backslash; backspace, tab, line feed, form feed
/// and carriage return as their short escapes; any other control character
/// below U+0020 as `\u00` and two hex digits; everything else as itself.
pub open spec fn json_char(c: char) -> Seq<char> {
    if c == '"' {
        seq!['\\', '"']
    } else if c == '\\' {
        seq!['\\', '\\']
    } else if c == '\u{8}' {
        seq!['\\', 'b']
    } else if c == '\t' {
        seq!['\\', 't']
    } else if c == '\n' {
        seq!['\\', 'n']
    } else if c == '\u{c}' {
        seq!['\\', 'f']
    } else if c == '\r' {
        seq!['\\', 'r']
    } else if (c as u32) < 0x20 {
        seq!['\\', 'u', '0', '0', hex_digit((c as u32) as nat / 16), hex_digit((c as u32) as nat % 16)]
    } else {
        seq![c]
    }
}

/// The escaped characters of a text, in order.
pub open spec fn json_escaped(s: Seq<char>) -> Seq<char>
    decreases s.len(),
{
    if s.len() == 0 {
        Seq::empty()
    } else {
        json_escaped(s.drop_last()) + json_char(s.last())
    }
}

/// The JSON string literal `serde_json` writes for a text: its escaped
/// characters between double quotes.
pub open spec fn json_string_literal(s: Seq<char>) -> Seq<char> {
    seq!['"'] + json_escaped(s) + seq!['"']
}

/// `serde_json::to_string` on a string slice. On a `str` the serializer only
/// writes escaped text into a `Vec<u8>`, whose writes cannot fail, so the call
/// always succeeds; the text is the literal its escape table gives
/// (`json_string_literal`).
#[verifier::external_body]
fn json_quote(s: &str) -> (r: Result<String, serde_json::Error>)
    ensures
        r is Ok,
        r matches Ok(t) ==> t@ == json_string_literal(s@),
{
    serde_json::to_string(s)
}

/// One line of a cache list: the item's path, and its version when it has
/// one (an unversioned item has no `version` key at all).
pub open spec fn list_item_line(f: FailedItem) -> Seq<char> {
    "{\"path\":"@ + json_string_literal(f.path@) + match f.version {
        Some(v) => ",\"version\":"@ + json_string_literal(v@),
        None => ""@,
    } + "}\n"@
}

/// The failures in the input list's own JSONL format, one line each.
pub open spec fn failures_jsonl(fs: Seq<FailedItem>) -> Seq<char>
    decreases fs.len(),
{
    if fs.len() == 0 {
        Seq::empty()
    } else {
        failures_jsonl(fs.drop_last()) + list_item_line(fs.last())
    }
}

/// The failures as a cache list that can be fed straight back as input.
pub fn failures_to_jsonl(failures: &[FailedItem]) -> (r: Result<String, serde_json::Error>)
    ensures
        r is Ok,
        r matches Ok(s) ==> s@ == failures_jsonl(failures@),
{
    let mut out: Vec<char> = Vec::new();
    let mut i: usize = 0;
    while i < failures.len()
        invariant
            i <= failures@.len(),
            out@ == failures_jsonl(failures@.take(i as int)),
        decreases failures@.len() - i,
    {
        assert(failures@.take(i as int + 1).drop_last() =~= failures@.take(i as int));
        let f = &failures[i];
        let ghost before = out@;
        let path = match json_quote(f.path.as_str()) {
            Ok(t) => t,
            Err(e) => return Err(e),
        };
        extend_chars(&mut out, chars_of("{\"path\":").as_slice());
        extend_chars(&mut out, chars_of(path.as_str()).as_slice());
        match &f.version {
            Some(v) => {
                let version = match json_quote(v.as_str()) {
                    Ok(t) => t,
                    Err(e) => return Err(e),
                };
                extend_chars(&mut out, chars_of(",\"version\":").as_slice());
                extend_chars(&mut out, chars_of(version.as_str()).as_slice());
            },
            None => {
                extend_chars(&mut out, chars_of("").as_slice());
            },
        }
        extend_chars(&mut out, chars_of("}\n").as_slice());
        assert(out@ =~= before + list_item_line(failures@[i as int]));
        i += 1;
    }
    assert(failures@.take(failures@.len() as int) =~= failures@);
    Ok(string_of(out.as_slice()))
}


// ---------------------------------------------------------------------------
// Between the two passes
// ---------------------------------------------------------------------------

/// The answers a fetch can fail with that the run tells apart: the local copy
/// is newer than the list asks for, a CDN answered 404, or anything else.
#[derive(Debug, Clone, Copy, PartialEq, Eq, Structural)]
pub enum FetchError {
    VersionRollback,
    NotFound,
    Other,
}

/// How a failed item is treated after a pass.
#[derive(Debug, Clone, Copy, PartialEq, Eq, Structural)]
pub enum FailureKind {
    /// The newer local file was already served: nothing to retry.
    Rollback,
    /// A CDN answered 404: asking again gets the same answer.
    Missing,
    /// No CDN gave an answer: the question is still open.
    Retryable,
}

pub open spec fn failure_kind_of(e: FetchError) -> FailureKind {
    match e {
        FetchError::VersionRollback => FailureKind::Rollback,
        FetchError::NotFound => FailureKind::Missing,
        FetchError::Other => FailureKind::Retryable,
    }
}

pub fn classify_failure(error: &FetchError) -> (r: FailureKind)
    ensures
        r == failure_kind_of(*error),
{
    match error {
        FetchError::VersionRollback => FailureKind::Rollback,
        FetchError::NotFound => FailureKind::Missing,
        FetchError::Other => FailureKind::Retryable,
    }
}

/// The items of a pass's failures whose answer falls in class `k`, in order.
pub open spec fn items_of_kind(fs: Seq<(FailedItem, FetchError)>, k: FailureKind) -> Seq<FailedItem>
    decreases fs.len(),
{
    if fs.len() == 0 {
        Seq::empty()
    } else {
        let rest = items_of_kind(fs.drop_last(), k);
        if failure_kind_of(fs.last().1) == k {
            rest.push(fs.last().0)
        } else {
            rest
        }
    }
}

/// The items of a pass's failures whose answer is not in class `k`, in order.
pub open spec fn items_not_of_kind(fs: Seq<(FailedItem, FetchError)>, k: FailureKind) -> Seq<FailedItem>
    decreases fs.len(),
{
    if fs.len() == 0 {
        Seq::empty()
    } else {
        let rest = items_not_of_kind(fs.drop_last(), k);
        if failure_kind_of(fs.last().1) != k {
            rest.push(fs.last().0)
        } else {
            rest
        }
    }
}

fn copy_failed(f: &FailedItem) -> (r: FailedItem)
    ensures
        r == *f,
{
    let version = match &f.version {
        Some(v) => Some(v.clone()),
        None => None,
    };
    FailedItem { path: f.path.clone(), version, error: f.error.clone() }
}

/// The first pass's failures, split by class: how many were rollbacks, the
/// 404s, and the items the second pass retries.
pub struct FirstPassSplit {
    pub rollback: usize,
    pub missing: Vec<FailedItem>,
    pub retryable: Vec<FailedItem>,
}

pub fn split_first_pass(failures: &[(FailedItem, FetchError)]) -> (r: FirstPassSplit)
    ensures
        r.rollback == items_of_kind(failures@, FailureKind::Rollback).len(),
        r.missing@ == items_of_kind(failures@, FailureKind::Missing),
        r.retryable@ == items_of_kind(failures@, FailureKind::Retryable),
{
    let mut rollback: usize = 0;
    let mut missing: Vec<FailedItem> = Vec::new();
    let mut retryable: Vec<FailedItem> = Vec::new();
    let mut i: usize = 0;
    while i < failures.len()
        invariant
            i <= failures@.len(),
            rollback == items_of_kind(failures@.take(i as int), FailureKind::Rollback).len(),
            missing@ == items_of_kind(failures@.take(i as int), FailureKind::Missing),
            retryable@ == items_of_kind(failures@.take(i as int), FailureKind::Retryable),
        decreases failures@.len() - i,
    {
        assert(failures@.take(i as int + 1).drop_last() =~= failures@.take(i as int));
        assert(failures@.take(i as int + 1).last() == failures@[i as int]);
        proof {
            lemma_kind_count_bounded(failures@.take(i as int), FailureKind::Rollback);
        }
        let f = &failures[i];
        match classify_failure(&f.1) {
            FailureKind::Rollback => {
                rollback = rollback + 1;
            },
            FailureKind::Missing => {
                missing.push(copy_failed(&f.0));
            },
            FailureKind::Retryable => {
                retryable.push(copy_failed(&f.0));
            },
        }
        i += 1;
    }
    assert(failures@.take(failures@.len() as int) =~= failures@);
    FirstPassSplit { rollback, missing, retryable }
}

proof fn lemma_kind_count_bounded(fs: Seq<(FailedItem, FetchError)>, k: FailureKind)
    ensures
        items_of_kind(fs, k).len() <= fs.len(),
    decreases fs.len(),
{
    if fs.len() > 0 {
        lemma_kind_count_bounded(fs.drop_last(), k);
    }
}

/// The second pass's failures: the 404s join the first pass's `missing`, and
/// everything else is returned as failed for good.
pub fn split_second_pass(failures: &[(FailedItem, FetchError)], missing: &mut Vec<FailedItem>) -> (failed: Vec<FailedItem>)
    ensures
        final(missing)@ == old(missing)@ + items_of_kind(failures@, FailureKind::Missing),
        failed@ == items_not_of_kind(failures@, FailureKind::Missing),
{
    let mut failed: Vec<FailedItem> = Vec::new();
    let mut i: usize = 0;
    while i < failures.len()
        invariant
            i <= failures@.len(),
            missing@ == old(missing)@ + items_of_kind(failures@.take(i as int), FailureKind::Missing),
            failed@ == items_not_of_kind(failures@.take(i as int), FailureKind::Missing),
        decreases failures@.len() - i,
    {
        assert(failures@.take(i as int + 1).drop_last() =~= failures@.take(i as int));
        assert(failures@.take(i as int + 1).last() == failures@[i as int]);
        let f = &failures[i];
        let ghost before = missing@;
        match classify_failure(&f.1) {
            FailureKind::Missing => {
                missing.push(copy_failed(&f.0));
                assert(missing@ =~= old(missing)@ + items_of_kind(
                    failures@.take(i as int + 1),
                    FailureKind::Missing,
                ));
            },
            _ => {
                failed.push(copy_failed(&f.0));
            },
        }
        i += 1;
    }
    assert(failures@.take(failures@.len() as int) =~= failures@);
    failed
}

proof fn lemma_kind_lengths(fs: Seq<(FailedItem, FetchError)>)
    ensures
        items_of_kind(fs, FailureKind::Rollback).len() + items_of_kind(fs, FailureKind::Missing).len()
            + items_of_kind(fs, FailureKind::Retryable).len() == fs.len(),
        items_of_kind(fs, FailureKind::Missing).len() + items_not_of_kind(fs, FailureKind::Missing).len()
            == fs.len(),
    decreases fs.len(),
{
    if fs.len() > 0 {
        lemma_kind_lengths(fs.drop_last());
    }
}

/// Every failure of the first pass lands in exactly one class: a version
/// rollback (counted, neither retried nor listed), a 404, or a retry.
pub proof fn law_first_pass_classes_partition(fs: Seq<(FailedItem, FetchError)>)
    ensures
        items_of_kind(fs, FailureKind::Rollback).len() + items_of_kind(fs, FailureKind::Missing).len()
            + items_of_kind(fs, FailureKind::Retryable).len() == fs.len(),
{
    lemma_kind_lengths(fs);
}

/// Every failure of the second pass is either a 404 or failed for good.
pub proof fn law_second_pass_classes_partition(fs: Seq<(FailedItem, FetchError)>)
    ensures
        items_of_kind(fs, FailureKind::Missing).len() + items_not_of_kind(fs, FailureKind::Missing).len()
            == fs.len(),
{
    lemma_kind_lengths(fs);
}

/// A run ends without error exactly when neither pass left a 404 and no
/// retried item failed again; first-pass rollbacks never count against it.
pub proof fn law_run_succeeds_exactly_when_nothing_is_left(
    first: Seq<(FailedItem, FetchError)>,
    second: Seq<(FailedItem, FetchError)>,
)
    ensures
        ({
            let missing = items_of_kind(first, FailureKind::Missing) + items_of_kind(
                second,
                FailureKind::Missing,
            );
            let failed = items_not_of_kind(second, FailureKind::Missing);
            populate_outcome_text(failed.len(), missing.len()) is None <==> (missing.len() == 0
                && failed.len() == 0)
        }),
{
}

/// What the run reports at its end: nothing when every item was fetched or
/// served, else how many failed after the retry and how many are missing.
pub open spec fn populate_outcome_text(failed: nat, missing: nat) -> Option<Seq<char>> {
    if failed + missing > 0 {
        Some(dec_digits(failed) + " items failed after retry, "@ + dec_digits(missing) + " missing (404)"@)
    } else {
        None
    }
}

pub fn populate_outcome(failed: usize, missing: usize) -> (r: Option<String>)
    ensures
        r.deep_view() == populate_outcome_text(failed as nat, missing as nat),
{
    if failed > 0 || missing > 0 {
        let mut out: Vec<char> = Vec::new();
        push_dec_u64(&mut out, failed as u64);
        extend_chars(&mut out, chars_of(" items failed after retry, ").as_slice());
        push_dec_u64(&mut out, missing as u64);
        extend_chars(&mut out, chars_of(" missing (404)").as_slice());
        let s = string_of(out.as_slice());
        assert(s@ =~= dec_digits(failed as nat) + " items failed after retry, "@ + dec_digits(
            missing as nat,
        ) + " missing (404)"@);
        Some(s)
    } else {
        None
    }
}

} // verus!
