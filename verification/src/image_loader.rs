//! Directory listings, their order and cursor, image decoding, and the
//! decoded-image cache.
//!
//! [`DirectoryListing`] owns the ordered list of image paths and a cursor.
//! Navigation never wraps: the list has a hard start and end.
//!
//! Reading a directory and reading files happen around the library; the
//! listing is built from the entries that were read ([`FileEntry`]), and
//! [`decode_raster`] decodes a file's bytes.

use vstd::prelude::*;
use crate::formats::{format_of_path, SupportedFormat};
use crate::pathmap::PathMap;
use std::collections::VecDeque;
use crate::order::{lemma_text_transitive, lemma_text_trichotomy, text_less, text_lt};
use crate::paths::{path_extension, path_extension_of, path_file_name, path_file_name_of, path_join, path_join_of, same_path, same_path_of};
use crate::metadata::{orientation_in_range, exif_orientation_of, guessed_kind_of, is_raw_extension, is_raw_path, orientation_of_bytes, ImageKind};
use crate::pixels::{
    flip_horizontal_rgba, flip_vertical_rgba, flipped_h, flipped_v, rgba_len, rotate180_rgba, rotate270_rgba, rotate90_rgba,
    rotated_180, rotated_270, rotated_90, lemma_byte_index, lemma_byte_position, lemma_flipped_h_pixel,
    lemma_flipped_v_pixel, lemma_rotated_180_pixel, lemma_rotated_270_pixel, lemma_rotated_90_pixel,
};
use crate::text::{ascii_lower_is, eq_ascii_lowercase};
use crate::session::filter_accepts;
use crate::session::{RatingFilter, SessionState};
use crate::db::{
    images_answer, images_decoded, images_listed, images_rows_answered, image_deleted, image_delete_failed,
    image_delete_tried, delete_stmt, delete_stmts, DbError, DirectoryRecord, dir_answer, image_answer, DIR_BY_PATH_SQL, GET_IMAGE_SQL, joined_answer, rated_filtered, rows_query_answered,
    Database, ImageRecord, ParamValue, SqlValue, GET_IMAGES_SQL, RATED_SQL,
};
use crate::settings::SortOrder;
use crate::text::{chars_of, decimal_of, push_decimal};

verus! {

/// One entry of a directory, as read from the file system.
#[derive(Debug, Clone)]
pub struct FileEntry {
    /// The entry's full path.
    pub path: String,
    /// Whether the path is a regular file (following links).
    pub is_file: bool,
    /// Its size in bytes; 0 where the size could not be read.
    pub size: u64,
    /// Its modification time in nanoseconds relative to the Unix epoch; the
    /// epoch itself where the time could not be read.
    pub modified: i128,
}

/// The text by which a path is ordered by name: its file name, or nothing.
pub open spec fn name_key(path: Seq<char>) -> Seq<char> {
    match path_file_name_of(path) {
        Some(n) => n,
        None => Seq::empty(),
    }
}

/// `a`'s sort key is strictly smaller than `b`'s.
pub open spec fn key_lt(order: SortOrder, a: FileEntry, b: FileEntry) -> bool {
    match order {
        SortOrder::Name => text_lt(name_key(a.path@), name_key(b.path@)),
        SortOrder::DateModified => a.modified < b.modified,
        SortOrder::FileSize => a.size < b.size,
    }
}

/// `a` and `b` have the same sort key.
pub open spec fn key_eq(order: SortOrder, a: FileEntry, b: FileEntry) -> bool {
    match order {
        SortOrder::Name => name_key(a.path@) == name_key(b.path@),
        SortOrder::DateModified => a.modified == b.modified,
        SortOrder::FileSize => a.size == b.size,
    }
}

/// In a stable sort of `s`, the entry at index `i` goes before the one at `j`:
/// its key is smaller, or the keys are equal and it came first.
pub open spec fn goes_before(order: SortOrder, s: Seq<FileEntry>, i: int, j: int) -> bool {
    key_lt(order, s[i], s[j]) || (key_eq(order, s[i], s[j]) && i < j)
}

/// Some position of `p` holds `j`.
pub open spec fn index_listed(p: Seq<usize>, j: int) -> bool {
    exists|a: int| 0 <= a < p.len() && p[a] == j
}

/// `p` lists each index of `0..n` exactly once.
pub open spec fn is_permutation(p: Seq<usize>, n: nat) -> bool {
    &&& p.len() == n
    &&& forall|a: int| 0 <= a < n ==> p[a] < n
    &&& forall|a: int, b: int| 0 <= a < n && 0 <= b < n && a != b ==> p[a] != p[b]
    &&& forall|j: int| 0 <= j < n ==> #[trigger] index_listed(p, j)
}

/// `p` is the order in which a stable sort of `s` by `order` puts its entries.
pub open spec fn is_stable_sort(order: SortOrder, s: Seq<FileEntry>, p: Seq<usize>) -> bool {
    &&& is_permutation(p, s.len())
    &&& forall|a: int, b: int| 0 <= a < b < s.len() ==> goes_before(order, s, p[a] as int, p[b] as int)
}

/// The paths of `s` in the order `p`.
pub open spec fn paths_in_order(s: Seq<FileEntry>, p: Seq<usize>) -> Seq<Seq<char>> {
    Seq::new(p.len(), |a: int| s[p[a] as int].path@)
}

proof fn lemma_goes_before_total(order: SortOrder, s: Seq<FileEntry>, i: int, j: int)
    requires
        0 <= i < s.len(),
        0 <= j < s.len(),
        i != j,
    ensures
        goes_before(order, s, i, j) || goes_before(order, s, j, i),
        !(goes_before(order, s, i, j) && goes_before(order, s, j, i)),
{
    if order == SortOrder::Name {
        lemma_text_trichotomy(name_key(s[i].path@), name_key(s[j].path@));
    }
}

proof fn lemma_goes_before_transitive(order: SortOrder, s: Seq<FileEntry>, i: int, j: int, k: int)
    requires
        0 <= i < s.len(),
        0 <= j < s.len(),
        0 <= k < s.len(),
        goes_before(order, s, i, j),
        goes_before(order, s, j, k),
    ensures
        goes_before(order, s, i, k),
{
    if order == SortOrder::Name {
        let (a, b, c) = (name_key(s[i].path@), name_key(s[j].path@), name_key(s[k].path@));
        if text_lt(a, b) && text_lt(b, c) {
            lemma_text_transitive(a, b, c);
        }
    }
}

/// The name keys of the entries, in text form for comparison.
fn name_keys(entries: &Vec<FileEntry>) -> (r: Vec<Vec<char>>)
    ensures
        r@.len() == entries@.len(),
        forall|i: int| 0 <= i < r@.len() ==> r@[i]@ == name_key(#[trigger] entries@[i].path@),
{
    let mut r: Vec<Vec<char>> = Vec::new();
    let n = entries.len();
    let mut i: usize = 0;
    while i < n
        invariant
            n == entries@.len(),
            i <= n,
            r@.len() == i,
            forall|k: int| 0 <= k < i ==> r@[k]@ == name_key(#[trigger] entries@[k].path@),
        decreases n - i,
    {
        let key = match path_file_name(entries[i].path.as_str()) {
            Some(name) => chars_of(name.as_str()),
            None => Vec::new(),
        };
        r.push(key);
        i = i + 1;
    }
    r
}

/// Whether entry `i` goes before entry `j` in a stable sort by `order`.
fn entry_goes_before(
    order: SortOrder,
    entries: &Vec<FileEntry>,
    names: &Vec<Vec<char>>,
    i: usize,
    j: usize,
) -> (r: bool)
    requires
        i < entries@.len(),
        j < entries@.len(),
        order == SortOrder::Name ==> names@.len() == entries@.len(),
        order == SortOrder::Name ==> forall|k: int| 0 <= k < names@.len() ==> names@[k]@ == name_key(#[trigger] entries@[k].path@),
    ensures
        r == goes_before(order, entries@, i as int, j as int),
{
    let a = &entries[i];
    let b = &entries[j];
    match order {
        SortOrder::Name => {
            let lt = text_less(&names[i], &names[j]);
            let gt = text_less(&names[j], &names[i]);
            proof {
                lemma_text_trichotomy(names@[i as int]@, names@[j as int]@);
            }
            lt || (!lt && !gt && i < j)
        },
        SortOrder::DateModified => a.modified < b.modified || (a.modified == b.modified && i < j),
        SortOrder::FileSize => a.size < b.size || (a.size == b.size && i < j),
    }
}

/// The order of a stable sort of `entries` by `order`, as indices.
pub fn sort_order(entries: &Vec<FileEntry>, order: SortOrder) -> (r: Vec<usize>)
    ensures
        is_stable_sort(order, entries@, r@),
{
    let names = if order == SortOrder::Name {
        name_keys(entries)
    } else {
        Vec::new()
    };
    let n = entries.len();
    let mut idx: Vec<usize> = Vec::new();
    let mut k: usize = 0;
    while k < n
        invariant
            n == entries@.len(),
            k <= n,
            order == SortOrder::Name ==> names@.len() == n,
            order == SortOrder::Name ==> forall|q: int| 0 <= q < names@.len() ==> names@[q]@ == name_key(#[trigger] entries@[q].path@),
            idx@.len() == k,
            forall|a: int| 0 <= a < k ==> idx@[a] < k,
            forall|a: int, b: int| 0 <= a < k && 0 <= b < k && a != b ==> idx@[a] != idx@[b],
            forall|j: int| 0 <= j < k ==> #[trigger] index_listed(idx@, j),
            forall|a: int, b: int| 0 <= a < b < k ==> goes_before(order, entries@, idx@[a] as int, idx@[b] as int),
        decreases n - k,
    {
        // Find the first position whose entry goes after entry k.
        let mut p: usize = 0;
        while p < k && !entry_goes_before(order, entries, &names, k, idx[p])
            invariant
                n == entries@.len(),
                k < n,
                p <= k,
                idx@.len() == k,
                order == SortOrder::Name ==> names@.len() == n,
                order == SortOrder::Name ==> forall|q: int| 0 <= q < names@.len() ==> names@[q]@ == name_key(#[trigger] entries@[q].path@),
                forall|a: int| 0 <= a < k ==> idx@[a] < k,
                forall|a: int| 0 <= a < p ==> !goes_before(order, entries@, k as int, idx@[a] as int),
            decreases k - p,
        {
            p = p + 1;
        }
        let ghost old_idx = idx@;
        idx.insert(p, k);
        proof {
            let s = entries@;
            assert(idx@ == old_idx.insert(p as int, k));
            assert forall|a: int, b: int| 0 <= a < b < k + 1 implies goes_before(order, s, idx@[a] as int, idx@[b] as int) by {
                if a < p && b < p {
                    assert(idx@[a] == old_idx[a] && idx@[b] == old_idx[b]);
                } else if a < p && b == p {
                    lemma_goes_before_total(order, s, k as int, old_idx[a] as int);
                } else if a < p && b > p {
                    assert(idx@[b] == old_idx[b - 1]);
                    assert(old_idx[a] != old_idx[b - 1]);
                } else if a == p {
                    assert(idx@[b] == old_idx[b - 1]);
                    if p < k {
                        if b - 1 > p {
                            assert(goes_before(order, s, old_idx[p as int] as int, old_idx[b - 1] as int));
                            lemma_goes_before_transitive(order, s, k as int, old_idx[p as int] as int, old_idx[b - 1] as int);
                        }
                    }
                } else {
                    assert(idx@[a] == old_idx[a - 1] && idx@[b] == old_idx[b - 1]);
                }
            }
            assert forall|j: int| 0 <= j < k + 1 implies #[trigger] index_listed(idx@, j) by {
                if j == k {
                    assert(idx@[p as int] == j);
                } else {
                    assert(index_listed(old_idx, j));
                    let a0 = choose|a: int| 0 <= a < old_idx.len() && old_idx[a] == j;
                    if a0 < p {
                        assert(idx@[a0] == j);
                    } else {
                        assert(idx@[a0 + 1] == j);
                    }
                }
            }
        }
        k = k + 1;
    }
    idx
}

/// An entry the listing shows: a regular file in a supported format.
pub open spec fn is_supported(e: FileEntry) -> bool {
    e.is_file && format_of_path(e.path@) is Some
}

/// The entries a listing shows, in the order they were read.
pub open spec fn supported(entries: Seq<FileEntry>) -> Seq<FileEntry> {
    entries.filter(|e: FileEntry| is_supported(e))
}

/// `a` is `b` with some entries left out, the rest in order.
pub open spec fn is_subsequence<T>(a: Seq<T>, b: Seq<T>) -> bool {
    exists|idx: Seq<int>| #[trigger] idx.len() == a.len()
        && (forall|k: int| 0 <= k < a.len() ==> 0 <= #[trigger] idx[k] < b.len() && a[k] == b[idx[k]])
        && (forall|k: int, l: int| 0 <= k < l < a.len() ==> idx[k] < idx[l])
}

/// `files` lists the paths of `kept` in the order of a stable sort by `order`.
pub open spec fn lists_sorted(files: Seq<String>, kept: Seq<FileEntry>, order: SortOrder) -> bool {
    exists|p: Seq<usize>| #[trigger] is_stable_sort(order, kept, p)
        && files.map_values(|f: String| f@) == paths_in_order(kept, p)
}

/// A copy of a directory entry, field by field.
fn copy_entry(e: &FileEntry) -> (c: FileEntry)
    ensures
        c == *e,
{
    FileEntry { path: e.path.clone(), is_file: e.is_file, size: e.size, modified: e.modified }
}

/// The regular files in a supported format, in the order they were read.
fn supported_entries(entries: &Vec<FileEntry>) -> (r: Vec<FileEntry>)
    ensures
        r@ == supported(entries@),
{
    let ghost pred = |e: FileEntry| is_supported(e);
    let mut out: Vec<FileEntry> = Vec::new();
    let n = entries.len();
    let mut i: usize = 0;
    while i < n
        invariant
            n == entries@.len(),
            i <= n,
            pred == (|e: FileEntry| is_supported(e)),
            out@ == entries@.subrange(0, i as int).filter(pred),
        decreases n - i,
    {
        reveal_with_fuel(Seq::<_>::filter, 1);
        let e = &entries[i];
        let keep = e.is_file && SupportedFormat::from_path(e.path.as_str()).is_some();
        if keep {
            out.push(copy_entry(e));
        }
        assert(entries@.subrange(0, i + 1).drop_last() =~= entries@.subrange(0, i as int));
        i = i + 1;
    }
    assert(entries@.subrange(0, n as int) =~= entries@);
    out
}

/// The paths of `entries`, stably sorted by `order`.
pub fn sort_paths(entries: &Vec<FileEntry>, order: SortOrder) -> (r: Vec<String>)
    ensures
        lists_sorted(r@, entries@, order),
{
    let p = sort_order(entries, order);
    let mut files: Vec<String> = Vec::new();
    let n = p.len();
    let mut k: usize = 0;
    while k < n
        invariant
            n == p@.len(),
            n == entries@.len(),
            is_stable_sort(order, entries@, p@),
            k <= n,
            files@.len() == k,
            forall|a: int| 0 <= a < k ==> (#[trigger] files@[a])@ == entries@[p@[a] as int].path@,
        decreases n - k,
    {
        let j = p[k];
        files.push(entries[j].path.clone());
        k = k + 1;
    }
    assert(files@.map_values(|f: String| f@) =~= paths_in_order(entries@, p@));
    files
}

proof fn lemma_subsequence_of_itself<T>(s: Seq<T>)
    ensures
        is_subsequence(s, s),
{
    let idx = Seq::new(s.len(), |k: int| k);
    assert(idx.len() == s.len());
}

/// The file name a database record of `path` is keyed by, or nothing.
fn file_name_or_empty(path: &String) -> (r: String)
    ensures
        r@ == name_key(path@),
{
    match path_file_name(path.as_str()) {
        Some(n) => n,
        None => String::new(),
    }
}

/// Whether a file stays under the filter `f`, given what the database
/// answered for it: the rating of its record (`Some`), or no record at all
/// or a failed lookup (`None`).
pub open spec fn answer_accepted(answer: Option<Option<u8>>, f: RatingFilter) -> bool {
    match answer {
        Some(rating) => filter_accepts(f, rating),
        None => false,
    }
}

/// The first `n` of `files` that stay under `f`, given the database's
/// answer for each.
pub open spec fn kept_by_answers(files: Seq<FileEntry>, answers: Seq<Option<Option<u8>>>, f: RatingFilter, n: nat) -> Seq<FileEntry>
    decreases n,
{
    if n == 0 {
        Seq::empty()
    } else {
        let before = kept_by_answers(files, answers, f, (n - 1) as nat);
        if answer_accepted(answers[n - 1], f) {
            before.push(files[n - 1])
        } else {
            before
        }
    }
}

proof fn lemma_kept_prefix_indices(files: Seq<FileEntry>, answers: Seq<Option<Option<u8>>>, f: RatingFilter, n: nat)
    requires
        n <= files.len(),
    ensures
        exists|idx: Seq<int>| {
            &&& #[trigger] idx.len() == kept_by_answers(files, answers, f, n).len()
            &&& forall|k: int| 0 <= k < idx.len() ==> 0 <= #[trigger] idx[k] < n
                && kept_by_answers(files, answers, f, n)[k] == files[idx[k]]
            &&& forall|k: int, l: int| 0 <= k < l < idx.len() ==> idx[k] < idx[l]
        },
    decreases n,
{
    if n == 0 {
        let idx: Seq<int> = Seq::empty();
        assert(idx.len() == kept_by_answers(files, answers, f, n).len());
    } else {
        lemma_kept_prefix_indices(files, answers, f, (n - 1) as nat);
        let before = kept_by_answers(files, answers, f, (n - 1) as nat);
        let idx0 = choose|idx: Seq<int>| {
            &&& #[trigger] idx.len() == before.len()
            &&& forall|k: int| 0 <= k < idx.len() ==> 0 <= #[trigger] idx[k] < n - 1
                && before[k] == files[idx[k]]
            &&& forall|k: int, l: int| 0 <= k < l < idx.len() ==> idx[k] < idx[l]
        };
        let kept = kept_by_answers(files, answers, f, n);
        if answer_accepted(answers[n - 1], f) {
            let idx = idx0.push(n - 1);
            assert(kept == before.push(files[n - 1]));
            assert(idx.len() == kept.len());
            assert forall|k: int| 0 <= k < idx.len() implies 0 <= #[trigger] idx[k] < n
                && kept[k] == files[idx[k]] by {
                if k < idx0.len() {
                    assert(idx[k] == idx0[k]);
                }
            }
            assert forall|k: int, l: int| 0 <= k < l < idx.len() implies idx[k] < idx[l] by {
                assert(idx[k] == idx0[k]);
            }
        } else {
            assert(kept == before);
            assert(idx0.len() == kept.len());
        }
    }
}

/// SQLite answered the lookup of image `name` in directory `directory_id`,
/// and the lookup gave `r`.
pub open spec fn image_lookup(directory_id: i64, name: Seq<char>, r: Result<Option<ImageRecord>, DbError>) -> bool {
    image_answer(GET_IMAGE_SQL@, seq![ParamValue::Integer(directory_id), ParamValue::Text(name)], r)
}

/// The rating answer a lookup gives: the record's rating, or none where
/// there is no record or the lookup failed.
pub open spec fn answer_of(r: Result<Option<ImageRecord>, DbError>) -> Option<Option<u8>> {
    match r {
        Ok(Some(img)) => Some(img.rating),
        _ => None,
    }
}

/// `answer` is what the lookup of the file at `path` (by its file name) in
/// directory `directory_id` gave.
pub open spec fn rating_answered(directory_id: i64, path: Seq<char>, answer: Option<Option<u8>>) -> bool {
    exists|r: Result<Option<ImageRecord>, DbError>| #[trigger] image_lookup(directory_id, name_key(path), r)
        && answer == answer_of(r)
}

/// `answers` are what the lookups of each of `files`, in directory
/// `directory_id`, gave.
pub open spec fn answers_for(directory_id: i64, files: Seq<FileEntry>, answers: Seq<Option<Option<u8>>>) -> bool {
    &&& answers.len() == files.len()
    &&& forall|i: int| 0 <= i < files.len() ==> rating_answered(directory_id, files[i].path@, #[trigger] answers[i])
}

/// SQLite answered the lookup of the directory record for `dir` with `dr`.
pub open spec fn dir_lookup(dir: Seq<char>, dr: Result<Option<DirectoryRecord>, DbError>) -> bool {
    dir_answer(DIR_BY_PATH_SQL@, seq![ParamValue::Text(dir)], dr)
}

/// What a scan of directory `dir` keeps of its supported files `all`, and
/// what it does to the database, given the directory lookup's answer `dr`.
/// Without a database it keeps all files. With one, it looks the directory
/// up; where a record `d` is found, under a filter, it keeps the files whose own lookup (by file name
/// in `d`) gives a rating the filter accepts. Under a filter, a directory
/// without a record (or a failed lookup) keeps nothing.
pub open spec fn scan_outcome(
    all: Seq<FileEntry>,
    filter: Option<RatingFilter>,
    with_db: bool,
    dir: Seq<char>,
    dr: Result<Option<DirectoryRecord>, DbError>,
    kept: Seq<FileEntry>,
) -> bool {
    if !with_db {
        kept == all
    } else {
        &&& dir_lookup(dir, dr)
        &&& match dr {
            Ok(Some(d)) => match filter {
                Some(f) => exists|answers: Seq<Option<Option<u8>>>| #[trigger] answers_for(d.id, all, answers)
                    && kept == kept_by_answers(all, answers, f, all.len()),
                None => kept == all,
            },
            _ => match filter {
                Some(_) => kept == Seq::<FileEntry>::empty(),
                None => kept == all,
            },
        }
    }
}

/// What stays of `files` under `f` is a subsequence of them.
proof fn lemma_kept_is_subsequence(files: Seq<FileEntry>, answers: Seq<Option<Option<u8>>>, f: RatingFilter)
    ensures
        is_subsequence(kept_by_answers(files, answers, f, files.len()), files),
{
    lemma_kept_prefix_indices(files, answers, f, files.len());
    let kept = kept_by_answers(files, answers, f, files.len());
    let idx = choose|idx: Seq<int>| {
        &&& #[trigger] idx.len() == kept.len()
        &&& forall|k: int| 0 <= k < idx.len() ==> 0 <= #[trigger] idx[k] < files.len()
            && kept[k] == files[idx[k]]
        &&& forall|k: int, l: int| 0 <= k < l < idx.len() ==> idx[k] < idx[l]
    };
    assert(idx.len() == kept.len());
}

/// Keep the files that stay under `f`, given the database's answer for each,
/// in their order.
pub fn keep_accepted(files: &Vec<FileEntry>, answers: &Vec<Option<Option<u8>>>, f: RatingFilter) -> (r: Vec<FileEntry>)
    requires
        answers@.len() == files@.len(),
    ensures
        r@ == kept_by_answers(files@, answers@, f, files@.len()),
{
    let mut out: Vec<FileEntry> = Vec::new();
    let n = files.len();
    let mut i: usize = 0;
    while i < n
        invariant
            n == files@.len(),
            n == answers@.len(),
            i <= n,
            out@ == kept_by_answers(files@, answers@, f, i as nat),
        decreases n - i,
    {
        let keep = match answers[i] {
            Some(rating) => f.matches(rating),
            None => false,
        };
        if keep {
            out.push(copy_entry(&files[i]));
        }
        i = i + 1;
    }
    out
}

/// The database's answer for each file: the rating of its record in the
/// directory, or `None` where it has none or the lookup failed.
fn rating_answers(db: &Database, directory_id: i64, files: &Vec<FileEntry>) -> (r: Vec<Option<Option<u8>>>)
    ensures
        answers_for(directory_id, files@, r@),
{
    let mut out: Vec<Option<Option<u8>>> = Vec::new();
    let n = files.len();
    let mut i: usize = 0;
    while i < n
        invariant
            n == files@.len(),
            i <= n,
            out@.len() == i,
            forall|k: int| 0 <= k < i ==> rating_answered(directory_id, files@[k].path@, #[trigger] out@[k]),
        decreases n - i,
    {
        let fname = file_name_or_empty(&files[i].path);
        let looked = db.get_image(directory_id, fname.as_str());
        let ghost lr = looked;
        let answer = match looked {
            Ok(Some(img)) => Some(img.rating),
            _ => None,
        };
        proof {
            assert(image_lookup(directory_id, name_key(files@[i as int].path@), lr));
            assert(answer == answer_of(lr));
        }
        out.push(answer);
        i = i + 1;
    }
    out
}

/// Whether some file of `files` has the file name `name`.
fn has_file_named(files: &Vec<FileEntry>, name: &String) -> (r: bool)
    ensures
        r == exists|i: int| 0 <= i < files@.len() && path_file_name_of(#[trigger] files@[i].path@) == Some(name@),
{
    let n = files.len();
    let mut i: usize = 0;
    while i < n
        invariant
            n == files@.len(),
            i <= n,
            forall|j: int| 0 <= j < i ==> path_file_name_of(#[trigger] files@[j].path@) != Some(name@),
        decreases n - i,
    {
        match path_file_name(files[i].path.as_str()) {
            Some(fname) => {
                if fname == *name {
                    return true;
                }
            },
            None => {},
        }
        i = i + 1;
    }
    false
}

/// The cursor after a step forward in a list of `len` paths: one further,
/// unless it is on the last path (or the list is empty).
pub open spec fn next_index(len: nat, i: int) -> int {
    if len > 0 && i < len - 1 {
        i + 1
    } else {
        i
    }
}

/// The cursor after a step back: one less, unless it is on the first path.
pub open spec fn prev_index(i: int) -> int {
    if i > 0 {
        i - 1
    } else {
        i
    }
}

/// Navigation never wraps: at the last path a step forward stays put, at
/// the first a step back stays put; and a step forward that moved is undone
/// by a step back.
pub proof fn lemma_navigation_does_not_wrap(len: nat, i: int)
    requires
        0 <= i,
        len > 0 ==> i < len,
    ensures
        len > 0 && i == len - 1 ==> next_index(len, i) == i,
        i == 0 ==> prev_index(i) == i,
        next_index(len, i) != i ==> prev_index(next_index(len, i)) == i,
        0 <= next_index(len, i) && (len > 0 ==> next_index(len, i) < len),
        0 <= prev_index(i) && (len > 0 ==> prev_index(i) < len),
{
}

/// `file_exists` has reported the path `path` present.
pub open spec fn reported_present<F: Fn(&str) -> bool>(file_exists: F, path: Seq<char>) -> bool {
    exists|p: &str| #[trigger] file_exists.ensures((p,), true) && p@ == path
}

/// `file_exists` has answered `answer` for the path `path`.
pub open spec fn reported_as<F: Fn(&str) -> bool>(file_exists: F, path: Seq<char>, answer: bool) -> bool {
    exists|p: &str| #[trigger] file_exists.ensures((p,), answer) && p@ == path
}

/// The path of a rated record: its file name joined to its directory.
pub open spec fn record_path(rec: (String, ImageRecord)) -> Seq<char> {
    path_join_of(rec.0@, rec.1.filename@)
}

/// The paths of the first `n` records that were reported present.
pub open spec fn present_paths(recs: Seq<(String, ImageRecord)>, present: Seq<bool>, n: nat) -> Seq<Seq<char>>
    decreases n,
{
    if n == 0 {
        Seq::empty()
    } else {
        let before = present_paths(recs, present, (n - 1) as nat);
        if present[n - 1] {
            before.push(record_path(recs[n - 1]))
        } else {
            before
        }
    }
}

/// Some file of `files` has the file name `name`.
pub open spec fn file_named(files: Seq<FileEntry>, name: Seq<char>) -> bool {
    exists|i: int| 0 <= i < files.len() && path_file_name_of(#[trigger] files[i].path@) == Some(name)
}

/// Later answers do not change the paths of the first `n` records.
proof fn lemma_present_paths_prefix(recs: Seq<(String, ImageRecord)>, a: Seq<bool>, b: Seq<bool>, n: nat)
    requires
        n <= a.len(),
        n <= b.len(),
        forall|k: int| 0 <= k < n ==> a[k] == b[k],
    ensures
        present_paths(recs, a, n) == present_paths(recs, b, n),
    decreases n,
{
    if n > 0 {
        lemma_present_paths_prefix(recs, a, b, (n - 1) as nat);
    }
}

/// Of the records `v`, every one before `k` whose file name no file of
/// `files` has was deleted.
pub open spec fn missing_deleted(directory_id: i64, files: Seq<FileEntry>, v: Seq<ImageRecord>, k: int) -> bool {
    forall|j: int| 0 <= j < k && !file_named(files, (#[trigger] v[j]).filename@) ==> image_deleted(directory_id, v[j].filename@)
}

/// The names of the records among the first `n` of `v` whose file name no
/// file of `files` has, in order.
pub open spec fn missing_names(files: Seq<FileEntry>, v: Seq<ImageRecord>, n: nat) -> Seq<Seq<char>>
    decreases n,
{
    if n == 0 {
        Seq::empty()
    } else {
        let before = missing_names(files, v, (n - 1) as nat);
        if !file_named(files, v[n - 1].filename@) {
            before.push(v[n - 1].filename@)
        } else {
            before
        }
    }
}

/// What pruning a directory's records against `files` did, with the
/// statements written to the database before (`before`) and after
/// (`after`): on success, the records SQLite listed for the directory whose
/// file name no file has were all deleted, and no other statement was
/// written; on failure, the listing failed and nothing was written, or
/// those records were deleted in order up to one whose delete SQLite
/// refused, and nothing else was written.
pub open spec fn pruned(
    directory_id: i64,
    files: Seq<FileEntry>,
    r: Result<(), DbError>,
    before: Seq<(Seq<char>, Seq<ParamValue>)>,
    after: Seq<(Seq<char>, Seq<ParamValue>)>,
) -> bool {
    match r {
        Ok(()) => exists|v: Seq<ImageRecord>| #[trigger] images_listed(directory_id, v)
            && missing_deleted(directory_id, files, v, v.len() as int)
            && after == before + delete_stmts(directory_id, missing_names(files, v, v.len())),
        Err(e) => (images_answer(GET_IMAGES_SQL@, seq![ParamValue::Integer(directory_id)], Err(e)) && after == before)
            || (e is Sqlite && exists|v: Seq<ImageRecord>| #[trigger] images_listed(directory_id, v)
                && exists|k: int| 0 <= k < v.len() && missing_deleted(directory_id, files, v, k)
                    && !file_named(files, (#[trigger] v[k]).filename@)
                    && image_delete_failed(directory_id, v[k].filename@)
                    && after == before + delete_stmts(directory_id, missing_names(files, v, (k + 1) as nat))),
    }
}

/// What a scan wrote to the database, given the directory lookup's answer:
/// the prune of the directory's records where a record was found, nothing
/// otherwise.
pub open spec fn scan_writes(
    all: Seq<FileEntry>,
    dr: Result<Option<DirectoryRecord>, DbError>,
    before: Seq<(Seq<char>, Seq<ParamValue>)>,
    after: Seq<(Seq<char>, Seq<ParamValue>)>,
) -> bool {
    match dr {
        Ok(Some(d)) => exists|pr: Result<(), DbError>| #[trigger] pruned(d.id, all, pr, before, after),
        _ => after == before,
    }
}

/// The deletes of the records among the first `n` of `recs` whose file was
/// reported missing, in order.
pub open spec fn absent_deletes(recs: Seq<(String, ImageRecord)>, present: Seq<bool>, n: nat) -> Seq<(Seq<char>, Seq<ParamValue>)>
    decreases n,
{
    if n == 0 {
        Seq::empty()
    } else {
        let before = absent_deletes(recs, present, (n - 1) as nat);
        if !present[n - 1] {
            before.push(delete_stmt(recs[n - 1].1.directory_id, recs[n - 1].1.filename@))
        } else {
            before
        }
    }
}

/// Later answers do not change the deletes for the first `n` records.
proof fn lemma_absent_deletes_prefix(recs: Seq<(String, ImageRecord)>, a: Seq<bool>, b: Seq<bool>, n: nat)
    requires
        n <= a.len(),
        n <= b.len(),
        forall|k: int| 0 <= k < n ==> a[k] == b[k],
    ensures
        absent_deletes(recs, a, n) == absent_deletes(recs, b, n),
    decreases n,
{
    if n > 0 {
        lemma_absent_deletes_prefix(recs, a, b, (n - 1) as nat);
    }
}

/// Sorted list of supported image files in a single directory, with a cursor.
#[derive(Debug)]
pub struct DirectoryListing {
    pub dir_path: String,
    pub files: Vec<String>,
    pub current_index: usize,
    /// When set, only images matching this filter (as found in the database) are shown.
    pub rating_filter: Option<RatingFilter>,
}

/// The first index of `files` whose path equals `target` as a path.
pub open spec fn first_same_path(files: Seq<String>, target: Seq<char>, i: int) -> bool {
    &&& 0 <= i < files.len()
    &&& same_path_of(files[i]@, target)
    &&& forall|j: int| 0 <= j < i ==> !same_path_of(#[trigger] files[j]@, target)
}

impl DirectoryListing {
    /// Build the listing of directory `dir` from the entries read from it:
    /// the regular files in a supported format, sorted by `order`. With a
    /// database, records of files that no longer exist are pruned, and a
    /// rating filter keeps only files whose record it accepts (none, if the
    /// directory has no record).
    pub fn scan(
        dir: &str,
        entries: &Vec<FileEntry>,
        order: SortOrder,
        filter: Option<RatingFilter>,
        db: Option<&mut Database>,
    ) -> (r: DirectoryListing)
        ensures
            r.dir_path@ == dir@,
            r.current_index == 0,
            r.rating_filter == filter,
            r.cursor_ok(),
            exists|kept: Seq<FileEntry>, dr: Result<Option<DirectoryRecord>, DbError>|
                #![trigger lists_sorted(r.files@, kept, order), scan_outcome(supported(entries@), filter, db is Some, dir@, dr, kept)]
                lists_sorted(r.files@, kept, order)
                && is_subsequence(kept, supported(entries@))
                && scan_outcome(supported(entries@), filter, db is Some, dir@, dr, kept)
                && match db {
                    Some(d) => scan_writes(supported(entries@), dr, d.written(), final(d).written()),
                    None => true,
                },
    {
        let mut files = supported_entries(entries);
        let ghost all = files@;
        proof {
            lemma_subsequence_of_itself(all);
        }
        let ghost mut dr: Result<Option<DirectoryRecord>, DbError> = Ok(None);
        let ghost has_db = db is Some;
        match db {
            Some(db) => {
                let ghost before = db.written();
                let found = db.find_directory_by_path(dir);
                proof {
                    dr = found;
                    assert(dir_lookup(dir@, dr));
                }
                match found {
                    Ok(Some(d_rec)) => {
                        let pr = Self::prune_missing_images(db, d_rec.id, &files);
                        assert(pruned(d_rec.id, all, pr, before, db.written()));
                        assert(scan_writes(all, dr, before, db.written()));
                        match filter {
                            Some(f) => {
                                let answers = rating_answers(db, d_rec.id, &files);
                                files = keep_accepted(&files, &answers, f);
                                proof {
                                    lemma_kept_is_subsequence(all, answers@, f);
                                    assert(answers_for(d_rec.id, all, answers@));
                                }
                            },
                            None => {},
                        }
                    },
                    _ => {
                        assert(scan_writes(all, dr, before, db.written()));
                        if filter.is_some() {
                            files = Vec::new();
                            proof {
                                let idx: Seq<int> = Seq::empty();
                                assert(idx.len() == files@.len());
                                assert(files@ =~= Seq::<FileEntry>::empty());
                            }
                        }
                    },
                }
            },
            None => {},
        }
        let sorted = sort_paths(&files, order);
        let r = DirectoryListing {
            dir_path: String::from_str(dir),
            files: sorted,
            current_index: 0,
            rating_filter: filter,
        };
        proof {
            assert(lists_sorted(r.files@, files@, order));
            assert(scan_outcome(all, filter, has_db, dir@, dr, files@));
        }
        r
    }

    /// The path under the cursor, as a sequence, if the cursor is on an entry.
    pub open spec fn current_path(&self) -> Option<Seq<char>> {
        if self.current_index < self.files@.len() {
            Some(self.files@[self.current_index as int]@)
        } else {
            None
        }
    }

    /// Re-scan the directory in place from freshly read entries, keeping the
    /// cursor on the same file where it is still listed.
    pub fn refresh(&mut self, entries: &Vec<FileEntry>, order: SortOrder, db: Option<&mut Database>)
        ensures
            final(self).dir_path@ == old(self).dir_path@,
            final(self).rating_filter == old(self).rating_filter,
            final(self).cursor_ok(),
            exists|kept: Seq<FileEntry>, dr: Result<Option<DirectoryRecord>, DbError>|
                #![trigger lists_sorted(final(self).files@, kept, order), scan_outcome(supported(entries@), old(self).rating_filter, db is Some, old(self).dir_path@, dr, kept)]
                lists_sorted(final(self).files@, kept, order)
                && is_subsequence(kept, supported(entries@))
                && scan_outcome(supported(entries@), old(self).rating_filter, db is Some, old(self).dir_path@, dr, kept)
                && match db {
                    Some(d) => scan_writes(supported(entries@), dr, d.written(), final(d).written()),
                    None => true,
                },
            match old(self).current_path() {
                Some(c) => if exists|i: int| 0 <= i < final(self).files@.len() && same_path_of(#[trigger] final(self).files@[i]@, c) {
                    first_same_path(final(self).files@, c, final(self).current_index as int)
                } else {
                    final(self).current_index == 0
                },
                None => final(self).current_index == 0,
            },
    {
        let current_file: Option<String> = match self.current() {
            Some(p) => Some(p.clone()),
            None => None,
        };
        let fresh = Self::scan(self.dir_path.as_str(), entries, order, self.rating_filter, db);
        *self = fresh;
        match current_file {
            Some(path) => {
                let _ = self.seek_to(path.as_str());
            },
            None => {},
        }
    }

    /// A listing of all rated images across the library that `filter`
    /// accepts, in the order of the database's rated view. A record whose
    /// file no longer exists (as `file_exists` reports) is left out, and its
    /// delete is handed to the database (whose error, if any, is ignored).
    pub fn scan_global<F: Fn(&str) -> bool>(db: &mut Database, filter: RatingFilter, file_exists: F) -> (r: Result<DirectoryListing, crate::db::DbError>)
        requires
            forall|p: &str| #[trigger] file_exists.requires((p,)),
        ensures
            r matches Ok(l) ==> {
                &&& l.dir_path@ == Seq::<char>::empty()
                &&& l.current_index == 0
                &&& l.rating_filter == Some(filter)
                &&& l.cursor_ok()
                &&& forall|i: int| 0 <= i < l.files@.len() ==> reported_present(file_exists, #[trigger] l.files@[i]@)
                &&& exists|recs: Seq<(String, ImageRecord)>, present: Seq<bool>|
                    #![trigger rated_filtered(recs, filter), present_paths(recs, present, recs.len())] {
                    &&& rated_filtered(recs, filter)
                    &&& present.len() == recs.len()
                    &&& forall|k: int| 0 <= k < recs.len() ==> reported_as(file_exists, record_path(#[trigger] recs[k]), present[k])
                    &&& paths_of(l.files@) == present_paths(recs, present, recs.len())
                    &&& forall|k: int| 0 <= k < recs.len() && !present[k]
                        ==> image_delete_tried((#[trigger] recs[k]).1.directory_id, recs[k].1.filename@)
                    &&& final(db).written() == old(db).written() + absent_deletes(recs, present, recs.len())
                }
            },
            r matches Err(e) ==> joined_answer(RATED_SQL@, Err(e)) && final(db).written() == old(db).written(),
    {
        let ghost start = db.written();
        let records = match db.get_rated_filtered(filter) {
            Ok(v) => v,
            Err(e) => return Err(e),
        };
        let mut files: Vec<String> = Vec::new();
        let ghost mut present: Seq<bool> = Seq::empty();
        let n = records.len();
        let mut i: usize = 0;
        while i < n
            invariant
                n == records@.len(),
                i <= n,
                forall|p: &str| #[trigger] file_exists.requires((p,)),
                forall|k: int| 0 <= k < files@.len() ==> reported_present(file_exists, #[trigger] files@[k]@),
                present.len() == i,
                forall|k: int| 0 <= k < i ==> reported_as(file_exists, record_path(#[trigger] records@[k]), present[k]),
                paths_of(files@) == present_paths(records@, present, i as nat),
                forall|k: int| 0 <= k < i && !present[k]
                    ==> image_delete_tried((#[trigger] records@[k]).1.directory_id, records@[k].1.filename@),
                start == old(db).written(),
                db.written() == start + absent_deletes(records@, present, i as nat),
            decreases n - i,
        {
            let path = path_join(records[i].0.as_str(), records[i].1.filename.as_str());
            let p = path.as_str();
            let here = file_exists(p);
            proof {
                assert(file_exists.ensures((p,), here));
                assert(p@ == path@);
                assert(reported_as(file_exists, record_path(records@[i as int]), here));
                let old_present = present;
                present = present.push(here);
                lemma_present_paths_prefix(records@, old_present, present, i as nat);
                lemma_absent_deletes_prefix(records@, old_present, present, i as nat);
            }
            if here {
                assert(absent_deletes(records@, present, (i + 1) as nat) == absent_deletes(records@, present, i as nat));
                let ghost pv = path@;
                let ghost before = files@;
                files.push(path);
                proof {
                    assert(files@[files@.len() - 1]@ == pv);
                    assert(reported_present(file_exists, pv));
                    assert(paths_of(files@) =~= paths_of(before).push(pv));
                    assert(pv == record_path(records@[i as int]));
                    assert(present_paths(records@, present, (i + 1) as nat)
                        == present_paths(records@, present, i as nat).push(record_path(records@[i as int])));
                }
            } else {
                let deleted = db.delete_image(records[i].1.directory_id, records[i].1.filename.as_str());
                assert(image_delete_tried(records@[i as int].1.directory_id, records@[i as int].1.filename@));
                assert(db.written() =~= start + absent_deletes(records@, present, (i + 1) as nat));
                assert(present_paths(records@, present, (i + 1) as nat) == present_paths(records@, present, i as nat));
            }
            i = i + 1;
        }
        proof {
            assert(rated_filtered(records@, filter));
            assert(paths_of(files@) == present_paths(records@, present, records@.len()));
        }
        Ok(DirectoryListing {
            dir_path: String::new(),
            files,
            current_index: 0,
            rating_filter: Some(filter),
        })
    }

    /// Delete the records of a directory's images that are not among
    /// `current_files`: every record SQLite lists for the directory whose
    /// file name no file has, in order, stopping at the first error.
    fn prune_missing_images(db: &mut Database, directory_id: i64, current_files: &Vec<FileEntry>) -> (r: Result<(), crate::db::DbError>)
        ensures
            pruned(directory_id, current_files@, r, old(db).written(), final(db).written()),
    {
        let ghost start = db.written();
        let db_images = match db.get_images(directory_id) {
            Ok(v) => v,
            Err(e) => return Err(e),
        };
        proof {
            let rows = choose|rows: Seq<Seq<SqlValue>>| #[trigger] rows_query_answered(GET_IMAGES_SQL@, seq![ParamValue::Integer(directory_id)], 10, Some(rows))
                && images_decoded(rows, db_images@);
            assert(images_rows_answered(directory_id, rows));
            assert(images_listed(directory_id, db_images@));
        }
        let n = db_images.len();
        let mut i: usize = 0;
        while i < n
            invariant
                n == db_images@.len(),
                i <= n,
                images_listed(directory_id, db_images@),
                missing_deleted(directory_id, current_files@, db_images@, i as int),
                start == old(db).written(),
                db.written() == start + delete_stmts(directory_id, missing_names(current_files@, db_images@, i as nat)),
            decreases n - i,
        {
            let ghost ms = missing_names(current_files@, db_images@, i as nat);
            let ghost name = db_images@[i as int].filename@;
            if !has_file_named(current_files, &db_images[i].filename) {
                let ghost w = db.written();
                let outcome = db.delete_image(directory_id, db_images[i].filename.as_str());
                proof {
                    assert(missing_names(current_files@, db_images@, (i + 1) as nat) == ms.push(name));
                    assert(delete_stmts(directory_id, ms.push(name)) =~= delete_stmts(directory_id, ms).push(delete_stmt(directory_id, name)));
                    assert(db.written() =~= start + delete_stmts(directory_id, missing_names(current_files@, db_images@, (i + 1) as nat)));
                }
                match outcome {
                    Ok(()) => {},
                    Err(e) => {
                        proof {
                            assert(images_listed(directory_id, db_images@));
                            let k = i as int;
                            assert(0 <= k < db_images@.len() && missing_deleted(directory_id, current_files@, db_images@, k)
                                && !file_named(current_files@, db_images@[k].filename@)
                                && image_delete_failed(directory_id, db_images@[k].filename@)
                                && db.written() == start + delete_stmts(directory_id, missing_names(current_files@, db_images@, (k + 1) as nat)));
                            assert(e is Sqlite);
                            assert(pruned(directory_id, current_files@, Err(e), start, db.written()));
                        }
                        return Err(e);
                    },
                }
            } else {
                assert(missing_names(current_files@, db_images@, (i + 1) as nat) == ms);
            }
            i = i + 1;
        }
        Ok(())
    }

    /// The cursor is on an entry, or at 0 when there is none.
    pub open spec fn cursor_ok(&self) -> bool {
        if self.files@.len() == 0 {
            self.current_index == 0
        } else {
            self.current_index < self.files@.len()
        }
    }

    /// Whether the cursor is on an entry, or at 0 when there is none.
    pub fn cursor_in_range(&self) -> (r: bool)
        ensures
            r == self.cursor_ok(),
    {
        if self.files.is_empty() {
            self.current_index == 0
        } else {
            self.current_index < self.files.len()
        }
    }

    /// Move the cursor to `target`. Returns `false` if it is not in the list.
    pub fn seek_to(&mut self, target: &str) -> (r: bool)
        ensures
            r == exists|i: int| 0 <= i < old(self).files@.len() && same_path_of(#[trigger] old(self).files@[i]@, target@),
            r ==> first_same_path(old(self).files@, target@, final(self).current_index as int),
            (exists|i: int| 0 <= i < old(self).files@.len() && #[trigger] old(self).files@[i]@ == target@) ==> r,
            !r ==> final(self).current_index == old(self).current_index,
            final(self).files == old(self).files,
            final(self).dir_path == old(self).dir_path,
            final(self).rating_filter == old(self).rating_filter,
            old(self).cursor_ok() ==> final(self).cursor_ok(),
    {
        let n = self.files.len();
        let mut i: usize = 0;
        while i < n
            invariant
                n == self.files@.len(),
                i <= n,
                self.files == old(self).files,
                self.dir_path == old(self).dir_path,
                self.rating_filter == old(self).rating_filter,
                self.current_index == old(self).current_index,
                forall|j: int| 0 <= j < i ==> !same_path_of(#[trigger] self.files@[j]@, target@),
                forall|j: int| 0 <= j < i ==> #[trigger] self.files@[j]@ != target@,
            decreases n - i,
        {
            if same_path(self.files[i].as_str(), target) {
                self.current_index = i;
                return true;
            }
            i = i + 1;
        }
        false
    }

    pub fn go_next(&mut self) -> (r: bool)
        ensures
            r == (old(self).files@.len() > 0 && old(self).current_index < old(self).files@.len() - 1),
            final(self).current_index == next_index(old(self).files@.len(), old(self).current_index as int),
            final(self).files == old(self).files,
            final(self).dir_path == old(self).dir_path,
            final(self).rating_filter == old(self).rating_filter,
            old(self).cursor_ok() ==> final(self).cursor_ok(),
    {
        let n = self.files.len();
        if self.can_go_next() {
            self.current_index = self.current_index + 1;
            true
        } else {
            false
        }
    }

    pub fn go_prev(&mut self) -> (r: bool)
        ensures
            r == (old(self).current_index > 0),
            final(self).current_index == prev_index(old(self).current_index as int),
            final(self).files == old(self).files,
            final(self).dir_path == old(self).dir_path,
            final(self).rating_filter == old(self).rating_filter,
            old(self).cursor_ok() ==> final(self).cursor_ok(),
    {
        if self.can_go_prev() {
            self.current_index = self.current_index - 1;
            true
        } else {
            false
        }
    }

    pub fn can_go_next(&self) -> (r: bool)
        ensures
            r == (self.files@.len() > 0 && self.current_index < self.files@.len() - 1),
    {
        !self.files.is_empty() && self.current_index < self.files.len() - 1
    }

    pub fn can_go_prev(&self) -> (r: bool)
        ensures
            r == (self.current_index > 0),
    {
        self.current_index > 0
    }

    /// The path under the cursor, if the cursor is on an entry.
    pub fn current(&self) -> (r: Option<&String>)
        ensures
            r == (if self.current_index < self.files@.len() {
                Some(&self.files@[self.current_index as int])
            } else {
                None
            }),
    {
        if self.current_index < self.files.len() {
            Some(&self.files[self.current_index])
        } else {
            None
        }
    }

    pub fn len(&self) -> (r: usize)
        ensures
            r == self.files@.len(),
    {
        self.files.len()
    }

    pub fn is_empty(&self) -> (r: bool)
        ensures
            r == (self.files@.len() == 0),
    {
        self.files.is_empty()
    }

    /// Step forward past images the session has hidden: move at least once,
    /// then on until an image that is not hidden, or the last one. Returns
    /// whether the cursor moved.
    pub fn go_next_visible<C>(&mut self, session: &SessionState<C>) -> (r: bool)
        ensures
            r == (old(self).files@.len() > 0 && old(self).current_index < old(self).files@.len() - 1),
            !r ==> final(self).current_index == old(self).current_index,
            r ==> old(self).current_index < final(self).current_index < final(self).files@.len(),
            r ==> forall|j: int| old(self).current_index < j < final(self).current_index
                ==> session.ignored_images@.contains(#[trigger] final(self).files@[j]@),
            r ==> (!session.ignored_images@.contains(final(self).files@[final(self).current_index as int]@)
                || final(self).current_index == final(self).files@.len() - 1),
            final(self).files == old(self).files,
            final(self).dir_path == old(self).dir_path,
            final(self).rating_filter == old(self).rating_filter,
            old(self).cursor_ok() ==> final(self).cursor_ok(),
    {
        let mut moved = false;
        while self.go_next()
            invariant_except_break
                self.files == old(self).files,
                self.dir_path == old(self).dir_path,
                self.rating_filter == old(self).rating_filter,
                moved == (self.current_index > old(self).current_index),
                old(self).current_index <= self.current_index,
                moved ==> self.current_index < self.files@.len(),
                !moved ==> self.current_index == old(self).current_index,
                forall|j: int| old(self).current_index < j <= self.current_index
                    ==> session.ignored_images@.contains(#[trigger] self.files@[j]@),
            ensures
                self.files == old(self).files,
                self.dir_path == old(self).dir_path,
                self.rating_filter == old(self).rating_filter,
                moved == (self.current_index > old(self).current_index),
                old(self).current_index <= self.current_index,
                moved ==> self.current_index < self.files@.len(),
                !moved ==> self.current_index == old(self).current_index,
                forall|j: int| old(self).current_index < j < self.current_index
                    ==> session.ignored_images@.contains(#[trigger] self.files@[j]@),
                moved ==> (!session.ignored_images@.contains(self.files@[self.current_index as int]@)
                    || self.current_index == self.files@.len() - 1),
                !moved ==> !(old(self).files@.len() > 0 && old(self).current_index < old(self).files@.len() - 1),
            decreases self.files@.len() - self.current_index,
        {
            moved = true;
            let i = self.current_index;
            if !session.is_ignored(&self.files[i]) {
                break;
            }
        }
        moved
    }

    /// Step back past images the session has hidden: move at least once,
    /// then on until an image that is not hidden, or the first one. Returns
    /// whether the cursor moved.
    pub fn go_prev_visible<C>(&mut self, session: &SessionState<C>) -> (r: bool)
        requires
            old(self).cursor_ok(),
        ensures
            r == (old(self).current_index > 0),
            !r ==> final(self).current_index == old(self).current_index,
            r ==> final(self).current_index < old(self).current_index,
            r ==> forall|j: int| final(self).current_index < j < old(self).current_index
                ==> session.ignored_images@.contains(#[trigger] final(self).files@[j]@),
            r ==> (!session.ignored_images@.contains(final(self).files@[final(self).current_index as int]@)
                || final(self).current_index == 0),
            final(self).files == old(self).files,
            final(self).dir_path == old(self).dir_path,
            final(self).rating_filter == old(self).rating_filter,
            final(self).cursor_ok(),
    {
        let mut moved = false;
        while self.go_prev()
            invariant_except_break
                self.files == old(self).files,
                self.dir_path == old(self).dir_path,
                self.rating_filter == old(self).rating_filter,
                self.cursor_ok(),
                moved == (self.current_index < old(self).current_index),
                self.current_index <= old(self).current_index,
                !moved ==> self.current_index == old(self).current_index,
                forall|j: int| self.current_index <= j < old(self).current_index
                    ==> session.ignored_images@.contains(#[trigger] self.files@[j]@),
            ensures
                self.files == old(self).files,
                self.dir_path == old(self).dir_path,
                self.rating_filter == old(self).rating_filter,
                self.cursor_ok(),
                moved == (self.current_index < old(self).current_index),
                self.current_index <= old(self).current_index,
                !moved ==> self.current_index == old(self).current_index,
                forall|j: int| self.current_index < j < old(self).current_index
                    ==> session.ignored_images@.contains(#[trigger] self.files@[j]@),
                moved ==> (!session.ignored_images@.contains(self.files@[self.current_index as int]@)
                    || self.current_index == 0),
                !moved ==> old(self).current_index == 0,
            decreases self.current_index,
        {
            moved = true;
            let i = self.current_index;
            if !session.is_ignored(&self.files[i]) {
                break;
            }
        }
        moved
    }

    /// `r` is the nearest entry after the cursor whose path is not in
    /// `hidden`, or `None` when every entry after the cursor is hidden.
    pub open spec fn is_next_visible(&self, hidden: Set<Seq<char>>, r: Option<usize>) -> bool {
        match r {
            Some(j) => {
                &&& self.current_index < j < self.files@.len()
                &&& !hidden.contains(self.files@[j as int]@)
                &&& forall|k: int| self.current_index < k < j ==> hidden.contains(#[trigger] self.files@[k]@)
            },
            None => forall|k: int| self.current_index < k < self.files@.len()
                ==> hidden.contains(#[trigger] self.files@[k]@),
        }
    }

    /// `r` is the nearest entry before the cursor whose path is not in
    /// `hidden`, or `None` when every entry before the cursor is hidden.
    pub open spec fn is_prev_visible(&self, hidden: Set<Seq<char>>, r: Option<usize>) -> bool {
        match r {
            Some(j) => {
                &&& j < self.current_index
                &&& !hidden.contains(self.files@[j as int]@)
                &&& forall|k: int| j < k < self.current_index ==> hidden.contains(#[trigger] self.files@[k]@)
            },
            None => forall|k: int| 0 <= k < self.current_index ==> hidden.contains(#[trigger] self.files@[k]@),
        }
    }

    /// The nearest images after and before the cursor that the session has
    /// not hidden: the ones worth decoding ahead of the user's next step.
    pub fn visible_neighbours<C>(&self, session: &SessionState<C>) -> (r: (Option<usize>, Option<usize>))
        requires
            self.cursor_ok(),
        ensures
            self.is_next_visible(session.ignored_images@, r.0),
            self.is_prev_visible(session.ignored_images@, r.1),
    {
        let n = self.files.len();
        let cur = self.current_index;
        let mut next: Option<usize> = None;
        let mut i: usize = cur;
        while next.is_none() && i + 1 < n
            invariant
                self.cursor_ok(),
                n == self.files@.len(),
                cur == self.current_index,
                cur <= i,
                n == 0 ==> i == 0,
                n > 0 ==> i < n,
                next is None ==> forall|k: int| cur < k <= i ==> session.ignored_images@.contains(#[trigger] self.files@[k]@),
                next is Some ==> next == Some(i) && self.is_next_visible(session.ignored_images@, next),
            decreases n - i,
        {
            i = i + 1;
            if !session.is_ignored(&self.files[i]) {
                next = Some(i);
            }
        }
        let mut prev: Option<usize> = None;
        let mut i: usize = cur;
        while prev.is_none() && i > 0
            invariant
                self.cursor_ok(),
                n == self.files@.len(),
                cur == self.current_index,
                i <= cur,
                prev is None ==> forall|k: int| i <= k < cur ==> session.ignored_images@.contains(#[trigger] self.files@[k]@),
                prev is Some ==> prev == Some(i) && self.is_prev_visible(session.ignored_images@, prev),
            decreases i,
        {
            i = i - 1;
            if !session.is_ignored(&self.files[i]) {
                prev = Some(i);
            }
        }
        (next, prev)
    }

    /// Human-readable cursor position, e.g. "4 / 20".
    pub fn position_label(&self) -> (r: String)
        requires
            self.files@.len() > 0 ==> self.current_index < usize::MAX,
        ensures
            r@ == (if self.files@.len() == 0 {
                "0 / 0"@
            } else {
                decimal_of((self.current_index + 1) as nat) + " / "@ + decimal_of(self.files@.len())
            }),
    {
        if self.files.is_empty() {
            String::from_str("0 / 0")
        } else {
            let mut s = String::new();
            push_decimal(&mut s, self.current_index + 1);
            s.append(" / ");
            push_decimal(&mut s, self.files.len());
            s
        }
    }
}

/// A fully decoded RGBA image ready for upload to the GPU.
#[derive(Clone)]
pub struct DecodedImage {
    pub rgba: Vec<u8>,
    pub width: u32,
    pub height: u32,
}

/// The RGBA pixel `p` of `rgba` is the RGB pixel `p` of `rgb` made opaque.
pub open spec fn opaque_pixel_at(rgba: Seq<u8>, rgb: Seq<u8>, p: int) -> bool {
    &&& rgba[4 * p] == rgb[3 * p]
    &&& rgba[4 * p + 1] == rgb[3 * p + 1]
    &&& rgba[4 * p + 2] == rgb[3 * p + 2]
    &&& rgba[4 * p + 3] == 255
}

/// Convert 8-bit RGB pixels to opaque RGBA, as decoded raw images are; a
/// trailing partial pixel is dropped.
pub fn rgb_to_rgba(data: &[u8]) -> (r: Vec<u8>)
    ensures
        r@.len() == (data@.len() / 3) * 4,
        forall|p: int| 0 <= p < data@.len() / 3 ==> #[trigger] opaque_pixel_at(r@, data@, p),
{
    let n = data.len();
    let mut rgba: Vec<u8> = Vec::new();
    let mut p: usize = 0;
    while p < n / 3
        invariant
            n == data@.len(),
            p <= n / 3,
            rgba@.len() == 4 * p,
            forall|q: int| 0 <= q < p ==> #[trigger] opaque_pixel_at(rgba@, data@, q),
        decreases n / 3 - p,
    {
        let i = 3 * p;
        let ghost before = rgba@;
        rgba.push(data[i]);
        rgba.push(data[i + 1]);
        rgba.push(data[i + 2]);
        rgba.push(255);
        proof {
            assert forall|q: int| 0 <= q < p + 1 implies #[trigger] opaque_pixel_at(rgba@, data@, q) by {
                if q < p {
                    assert(opaque_pixel_at(before, data@, q));
                    assert(rgba@[4 * q] == before[4 * q]);
                    assert(rgba@[4 * q + 1] == before[4 * q + 1]);
                    assert(rgba@[4 * q + 2] == before[4 * q + 2]);
                    assert(rgba@[4 * q + 3] == before[4 * q + 3]);
                }
            }
        }
        p = p + 1;
    }
    rgba
}

/// Which decoder an image file goes to.
#[derive(Debug, Clone, Copy, PartialEq, Eq, Structural)]
pub enum DecodeRoute {
    /// The SVG renderer.
    Svg,
    /// The camera raw processor.
    Raw,
    /// The general raster decoder, which guesses the format from the bytes.
    Raster,
}

/// The decoder for a path: SVG when its extension, lowered in ASCII, is
/// `svg`; raw when it names a camera raw file; the raster decoder otherwise.
pub open spec fn route_of(path: Seq<char>) -> DecodeRoute {
    let svg = match path_extension_of(path) {
        Some(ext) => ascii_lower_is(ext, "svg"@),
        None => false,
    };
    if svg {
        DecodeRoute::Svg
    } else if is_raw_path(path) {
        DecodeRoute::Raw
    } else {
        DecodeRoute::Raster
    }
}

/// The decoder for the file at `path`.
pub fn decode_route(path: &str) -> (r: DecodeRoute)
    ensures
        r == route_of(path@),
{
    let svg = match path_extension(path) {
        Some(ext) => eq_ascii_lowercase(ext.as_str(), "svg"),
        None => false,
    };
    if svg {
        DecodeRoute::Svg
    } else if is_raw_extension(path) {
        DecodeRoute::Raw
    } else {
        DecodeRoute::Raster
    }
}

/// How the pixels of a decoded image are turned so that an EXIF orientation
/// tag reads upright.
#[derive(Debug, Clone, Copy, PartialEq, Eq, Structural)]
pub enum OrientationFix {
    Keep,
    FlipHorizontal,
    Rotate180,
    FlipVertical,
    Rotate90ThenFlipHorizontal,
    Rotate90,
    Rotate270ThenFlipHorizontal,
    Rotate270,
}

/// The fix for each EXIF orientation value; values outside 2..=8 need none.
pub open spec fn fix_for_orientation(o: u32) -> OrientationFix {
    if o == 2 {
        OrientationFix::FlipHorizontal
    } else if o == 3 {
        OrientationFix::Rotate180
    } else if o == 4 {
        OrientationFix::FlipVertical
    } else if o == 5 {
        OrientationFix::Rotate90ThenFlipHorizontal
    } else if o == 6 {
        OrientationFix::Rotate90
    } else if o == 7 {
        OrientationFix::Rotate270ThenFlipHorizontal
    } else if o == 8 {
        OrientationFix::Rotate270
    } else {
        OrientationFix::Keep
    }
}

/// The pixel operation that makes an image with EXIF orientation `o` upright.
pub fn orientation_fix(o: u32) -> (r: OrientationFix)
    ensures
        r == fix_for_orientation(o),
{
    match o {
        2 => OrientationFix::FlipHorizontal,
        3 => OrientationFix::Rotate180,
        4 => OrientationFix::FlipVertical,
        5 => OrientationFix::Rotate90ThenFlipHorizontal,
        6 => OrientationFix::Rotate90,
        7 => OrientationFix::Rotate270ThenFlipHorizontal,
        8 => OrientationFix::Rotate270,
        _ => OrientationFix::Keep,
    }
}

/// The fix for an orientation that may be missing: none without one.
pub open spec fn fix_for(o: Option<u32>) -> OrientationFix {
    match o {
        Some(v) => fix_for_orientation(v),
        None => OrientationFix::Keep,
    }
}

/// The pixels and dimensions of a `w` by `h` image after `fix`.
pub open spec fn upright_of(px: Seq<u8>, w: u32, h: u32, fix: OrientationFix) -> (Seq<u8>, u32, u32) {
    let (wn, hn) = (w as nat, h as nat);
    match fix {
        OrientationFix::Keep => (px, w, h),
        OrientationFix::FlipHorizontal => (flipped_h(px, wn, hn), w, h),
        OrientationFix::Rotate180 => (rotated_180(px, wn, hn), w, h),
        OrientationFix::FlipVertical => (flipped_v(px, wn, hn), w, h),
        OrientationFix::Rotate90ThenFlipHorizontal => (flipped_h(rotated_90(px, wn, hn), hn, wn), h, w),
        OrientationFix::Rotate90 => (rotated_90(px, wn, hn), h, w),
        OrientationFix::Rotate270ThenFlipHorizontal => (flipped_h(rotated_270(px, wn, hn), hn, wn), h, w),
        OrientationFix::Rotate270 => (rotated_270(px, wn, hn), h, w),
    }
}

/// The EXIF orientation tag says how a camera laid out the image it stored.
/// For an upright image `wu` pixels wide and `hu` high, this is the upright
/// pixel that the stored pixel `(x, y)` shows under tag `o`, as the
/// standard describes each value by where the stored 0th row and 0th column
/// lie in the upright view:
/// 2: top row, right column (mirrored left to right);
/// 3: bottom row, right column (turned half way);
/// 4: bottom row, left column (mirrored top to bottom);
/// 5: left column, top row (transposed);
/// 6: right column, top row (the camera was turned a quarter counter-clockwise);
/// 7: right column, bottom row (transposed the other way);
/// 8: left column, bottom row (the camera was turned a quarter clockwise);
/// 1 and every other value: stored as seen.
pub open spec fn exif_upright_source(o: u32, x: int, y: int, wu: int, hu: int) -> (int, int) {
    if o == 2 {
        (wu - 1 - x, y)
    } else if o == 3 {
        (wu - 1 - x, hu - 1 - y)
    } else if o == 4 {
        (x, hu - 1 - y)
    } else if o == 5 {
        (y, x)
    } else if o == 6 {
        (wu - 1 - y, x)
    } else if o == 7 {
        (wu - 1 - y, hu - 1 - x)
    } else if o == 8 {
        (y, hu - 1 - x)
    } else {
        (x, y)
    }
}

/// Whether tag `o` stores the image with its width and height swapped.
pub open spec fn exif_swaps_sides(o: u32) -> bool {
    5 <= o <= 8
}

/// The width and height of the stored image, for an upright one `wu` by `hu`.
pub open spec fn exif_stored_dims(o: u32, wu: u32, hu: u32) -> (u32, u32) {
    if exif_swaps_sides(o) { (hu, wu) } else { (wu, hu) }
}

/// The RGBA bytes that a camera stores, under tag `o`, for the upright
/// `wu` by `hu` image `u`.
pub open spec fn exif_stored(u: Seq<u8>, wu: nat, hu: nat, o: u32) -> Seq<u8> {
    let ws: int = if exif_swaps_sides(o) { hu as int } else { wu as int };
    Seq::new(rgba_len(wu, hu), |i: int| {
        let d = i / 4;
        let p = exif_upright_source(o, d % ws, d / ws, wu as int, hu as int);
        u[(p.1 * wu + p.0) * 4 + i % 4]
    })
}

/// Byte `c` of the stored pixel `(x, y)` is byte `c` of the upright pixel
/// that it shows.
proof fn lemma_exif_stored_pixel(u: Seq<u8>, wu: nat, hu: nat, o: u32, x: int, y: int, c: int)
    requires
        0 <= x < (if exif_swaps_sides(o) { hu } else { wu }),
        0 <= y < (if exif_swaps_sides(o) { wu } else { hu }),
        0 <= c < 4,
    ensures
        ({
            let ws: int = if exif_swaps_sides(o) { hu as int } else { wu as int };
            let p = exif_upright_source(o, x, y, wu as int, hu as int);
            &&& 0 <= (y * ws + x) * 4 + c < rgba_len(wu, hu)
            &&& exif_stored(u, wu, hu, o)[(y * ws + x) * 4 + c] == u[(p.1 * wu + p.0) * 4 + c]
        }),
{
    if exif_swaps_sides(o) {
        lemma_byte_index(x, y, c, hu as int, wu as int);
        assert(rgba_len(wu, hu) == hu * wu * 4) by (nonlinear_arith);
    } else {
        lemma_byte_index(x, y, c, wu as int, hu as int);
    }
}

/// Undoing an EXIF orientation: for every tag value, the fix chosen for it
/// turns the image a camera stored under that tag back into the upright
/// image, pixel for pixel, with the upright width and height.
pub proof fn lemma_orientation_fix_restores_upright(u: Seq<u8>, wu: u32, hu: u32, o: u32)
    requires
        u.len() == rgba_len(wu as nat, hu as nat),
    ensures
        ({
            let (ws, hs) = exif_stored_dims(o, wu, hu);
            upright_of(exif_stored(u, wu as nat, hu as nat, o), ws, hs, fix_for_orientation(o)) == (u, wu, hu)
        }),
{
    let (wn, hn) = (wu as nat, hu as nat);
    let (wi, hi) = (wu as int, hu as int);
    let s = exif_stored(u, wn, hn, o);
    let (ws, hs) = exif_stored_dims(o, wu, hu);
    let res = upright_of(s, ws, hs, fix_for_orientation(o));
    assert(rgba_len(hn, wn) == rgba_len(wn, hn)) by (nonlinear_arith);
    assert(res.1 == wu && res.2 == hu);
    assert(res.0.len() == u.len());
    assert forall|i: int| 0 <= i < u.len() implies #[trigger] res.0[i] == u[i] by {
        assert(wi > 0 && hi > 0) by (nonlinear_arith)
            requires
                0 <= i < wi * hi * 4,
                wi >= 0,
                hi >= 0,
        ;
        lemma_byte_position(i, wi, hi);
        let (x, y, c) = ((i / 4) % wi, (i / 4) / wi, i % 4);
        if o == 2 {
            lemma_flipped_h_pixel(s, wn, hn, x, y, c);
            lemma_exif_stored_pixel(u, wn, hn, o, wi - 1 - x, y, c);
        } else if o == 3 {
            lemma_rotated_180_pixel(s, wn, hn, x, y, c);
            lemma_exif_stored_pixel(u, wn, hn, o, wi - 1 - x, hi - 1 - y, c);
        } else if o == 4 {
            lemma_flipped_v_pixel(s, wn, hn, x, y, c);
            lemma_exif_stored_pixel(u, wn, hn, o, x, hi - 1 - y, c);
        } else if o == 5 {
            let r = rotated_90(s, hn, wn);
            lemma_flipped_h_pixel(r, wn, hn, x, y, c);
            lemma_rotated_90_pixel(s, hn, wn, wi - 1 - x, y, c);
            lemma_exif_stored_pixel(u, wn, hn, o, y, x, c);
        } else if o == 6 {
            lemma_rotated_90_pixel(s, hn, wn, x, y, c);
            lemma_exif_stored_pixel(u, wn, hn, o, y, wi - 1 - x, c);
        } else if o == 7 {
            let r = rotated_270(s, hn, wn);
            lemma_flipped_h_pixel(r, wn, hn, x, y, c);
            lemma_rotated_270_pixel(s, hn, wn, wi - 1 - x, y, c);
            lemma_exif_stored_pixel(u, wn, hn, o, hi - 1 - y, wi - 1 - x, c);
        } else if o == 8 {
            lemma_rotated_270_pixel(s, hn, wn, x, y, c);
            lemma_exif_stored_pixel(u, wn, hn, o, hi - 1 - y, x, c);
        } else {
            lemma_exif_stored_pixel(u, wn, hn, o, x, y, c);
        }
    }
    assert(res.0 =~= u);
}

/// Apply `fix` to the pixels of a `w` by `h` RGBA image.
pub fn upright(px: Vec<u8>, w: u32, h: u32, fix: OrientationFix) -> (r: (Vec<u8>, u32, u32))
    requires
        rgba_len(w as nat, h as nat) <= px@.len(),
        rgba_len(w as nat, h as nat) <= usize::MAX,
    ensures
        (r.0@, r.1, r.2) == upright_of(px@, w, h, fix),
{
    proof {
        assert(rgba_len(h as nat, w as nat) == rgba_len(w as nat, h as nat)) by (nonlinear_arith);
    }
    match fix {
        OrientationFix::Keep => (px, w, h),
        OrientationFix::FlipHorizontal => (flip_horizontal_rgba(&px, w, h), w, h),
        OrientationFix::Rotate180 => (rotate180_rgba(&px, w, h), w, h),
        OrientationFix::FlipVertical => (flip_vertical_rgba(&px, w, h), w, h),
        OrientationFix::Rotate90ThenFlipHorizontal => {
            let turned = rotate90_rgba(&px, w, h);
            (flip_horizontal_rgba(&turned, h, w), h, w)
        },
        OrientationFix::Rotate90 => (rotate90_rgba(&px, w, h), h, w),
        OrientationFix::Rotate270ThenFlipHorizontal => {
            let turned = rotate270_rgba(&px, w, h);
            (flip_horizontal_rgba(&turned, h, w), h, w)
        },
        OrientationFix::Rotate270 => (rotate270_rgba(&px, w, h), h, w),
    }
}

/// What `image::load_from_memory` makes of `bytes`, converted to 8-bit
/// RGBA: the pixels, width and height, or the text of the error.
pub uninterp spec fn raster_decode_of(bytes: Seq<u8>) -> Result<(Seq<u8>, u32, u32), Seq<char>>;

/// Calls `image::load_from_memory`, which guesses the format from the bytes
/// and decodes them, then `DynamicImage::to_rgba8`, `dimensions` and
/// `into_raw`; an error becomes its `Display` text. A function of the bytes
/// alone. The buffer `to_rgba8` builds holds exactly `w * h * 4` bytes.
#[verifier::external_body]
fn decode_rgba(bytes: &[u8]) -> (r: Result<(Vec<u8>, u32, u32), String>)
    ensures
        match r {
            Ok((px, w, h)) => raster_decode_of(bytes@) == Ok::<(Seq<u8>, u32, u32), Seq<char>>((px@, w, h))
                && px@.len() == rgba_len(w as nat, h as nat),
            Err(e) => raster_decode_of(bytes@) == Err::<(Seq<u8>, u32, u32), Seq<char>>(e@),
        },
{
    match image::load_from_memory(bytes) {
        Ok(img) => {
            let rgba = img.to_rgba8();
            let (w, h) = rgba.dimensions();
            Ok((rgba.into_raw(), w, h))
        },
        Err(e) => Err(e.to_string()),
    }
}

/// The orientation of a raster file: the EXIF tag (1 to 8) of a JPEG, TIFF
/// or WebP file, nothing for other formats.
pub open spec fn raster_orientation(bytes: Seq<u8>) -> Option<u32> {
    match guessed_kind_of(bytes) {
        Some(ImageKind::Jpeg) | Some(ImageKind::Tiff) | Some(ImageKind::WebP) => orientation_in_range(exif_orientation_of(bytes)),
        _ => None,
    }
}

/// Decode a raster image file's contents to upright RGBA pixels: decode,
/// then undo the EXIF orientation. On failure, the decoder's error text.
pub fn decode_raster(bytes: &[u8]) -> (r: Result<DecodedImage, String>)
    ensures
        match raster_decode_of(bytes@) {
            Ok((px, w, h)) => r matches Ok(img)
                && (img.rgba@, img.width, img.height) == upright_of(px, w, h, fix_for(raster_orientation(bytes@))),
            Err(e) => r matches Err(m) && m@ == e,
        },
{
    let (px, w, h) = decode_rgba(bytes)?;
    let _ = px.len();
    let o = orientation_of_bytes(bytes, false);
    let fix = match o {
        Some(v) => orientation_fix(v),
        None => OrientationFix::Keep,
    };
    let (rgba, width, height) = upright(px, w, h, fix);
    Ok(DecodedImage { rgba, width, height })
}

/// A record that resvg, given `bytes`, gave `outcome`: the rendered RGBA
/// pixels with the width and height, `Ok(None)` where no pixmap of the
/// document's size could be made, or the text of the parse error. Rendering
/// may read files the document refers to, so nothing else is known of it.
pub uninterp spec fn svg_rendered(bytes: Seq<u8>, outcome: Result<Option<(Seq<u8>, u32, u32)>, Seq<char>>) -> bool;

/// The views of a rendering outcome.
pub open spec fn svg_outcome_view(o: Result<Option<(Vec<u8>, u32, u32)>, String>) -> Result<Option<(Seq<u8>, u32, u32)>, Seq<char>> {
    match o {
        Ok(Some((px, w, h))) => Ok(Some((px@, w, h))),
        Ok(None) => Ok(None),
        Err(e) => Err(e@),
    }
}

/// Calls `usvg::Tree::from_data` with the default options (an error becomes
/// its `Display` text), `tiny_skia::Pixmap::new` for the tree's size rounded
/// to whole pixels, `resvg::render` into it, and `Pixmap::take`. A pixmap
/// `w` by `h` holds exactly `w * h * 4` bytes.
#[verifier::external_body]
fn svg_render(bytes: &[u8]) -> (r: Result<Option<(Vec<u8>, u32, u32)>, String>)
    ensures
        svg_rendered(bytes@, svg_outcome_view(r)),
        r matches Ok(Some((px, w, h))) ==> px@.len() == rgba_len(w as nat, h as nat),
{
    let tree = resvg::usvg::Tree::from_data(bytes, &resvg::usvg::Options::default()).map_err(|e| e.to_string())?;
    let size = tree.size().to_int_size();
    let Some(mut pixmap) = resvg::tiny_skia::Pixmap::new(size.width(), size.height()) else { return Ok(None) };
    resvg::render(&tree, resvg::tiny_skia::Transform::default(), &mut pixmap.as_mut());
    Ok(Some((pixmap.take(), size.width(), size.height())))
}

/// Render an SVG document's contents to RGBA pixels. Where no pixmap of its
/// size can be made, the error is "Failed to create pixmap"; a document that
/// does not parse gives the parser's error text.
pub fn decode_svg(bytes: &[u8]) -> (r: Result<DecodedImage, String>)
    ensures
        exists|o: Result<Option<(Seq<u8>, u32, u32)>, Seq<char>>| #[trigger] svg_rendered(bytes@, o) && match o {
            Ok(Some((px, w, h))) => r matches Ok(img) && img.rgba@ == px && img.width == w && img.height == h,
            Ok(None) => r matches Err(m) && m@ == "Failed to create pixmap"@,
            Err(t) => r matches Err(m) && m@ == t,
        },
        r matches Ok(img) ==> img.rgba@.len() == rgba_len(img.width as nat, img.height as nat),
{
    let rendered = svg_render(bytes);
    let ghost o = svg_outcome_view(rendered);
    assert(svg_rendered(bytes@, o));
    match rendered {
        Ok(Some((rgba, width, height))) => Ok(DecodedImage { rgba, width, height }),
        Ok(None) => Err(String::from_str("Failed to create pixmap")),
        Err(e) => Err(e),
    }
}

/// The paths of a queue, in order.
pub open spec fn paths_of(q: Seq<String>) -> Seq<Seq<char>> {
    q.map_values(|s: String| s@)
}

/// `new` is `old` with the element `k` moved from its place to the back.
pub open spec fn moved_to_back(old: Seq<Seq<char>>, new: Seq<Seq<char>>, k: Seq<char>) -> bool {
    exists|i: int| 0 <= i < old.len() && old[i] == k && new == old.remove(i).push(k)
}

/// Least-recently-used cache of decoded images.
pub struct ImageCache {
    /// Maps path to decoded image.
    images: PathMap<DecodedImage>,
    /// Order of access, least recent first, for eviction.
    order: VecDeque<String>,
    /// Maximum number of images to keep in memory.
    capacity: usize,
}

impl ImageCache {
    /// The cached images by path.
    pub closed spec fn cached(&self) -> Map<Seq<char>, DecodedImage> {
        self.images@
    }

    /// The cached paths, least recently used first.
    pub closed spec fn recency(&self) -> Seq<Seq<char>> {
        paths_of(self.order@)
    }

    /// The number of images the cache keeps at most (one, if it was made
    /// with capacity zero).
    pub closed spec fn capacity(&self) -> nat {
        self.capacity as nat
    }

    /// The cache's bookkeeping agrees: each cached path occurs once in the
    /// recency order, and the size stays within the capacity.
    pub closed spec fn wf(&self) -> bool {
        &&& self.images.wf()
        &&& self.recency().no_duplicates()
        &&& forall|k: Seq<char>| self.images@.dom().contains(k) <==> self.recency().contains(k)
        &&& self.recency().len() <= (if self.capacity == 0 { 1 } else { self.capacity as int })
    }

    proof fn lemma_size(&self)
        requires
            self.wf(),
        ensures
            self.cached().dom().len() == self.recency().len(),
            self.cached().dom().finite(),
    {
        self.recency().unique_seq_to_set();
        assert(self.cached().dom() =~= self.recency().to_set());
    }

    /// The cache never holds more images than its capacity (one, for a
    /// cache made with capacity zero), and each cached path occurs exactly
    /// once in the recency order.
    pub proof fn lemma_within_capacity(&self)
        requires
            self.wf(),
        ensures
            self.cached().dom().finite(),
            self.cached().dom().len() <= (if self.capacity() == 0 { 1 } else { self.capacity() }),
            self.recency().no_duplicates(),
            forall|k: Seq<char>| self.cached().dom().contains(k) <==> self.recency().contains(k),
    {
        self.lemma_size();
    }

    pub fn new(capacity: usize) -> (r: Self)
        ensures
            r.wf(),
            r.cached() == Map::<Seq<char>, DecodedImage>::empty(),
            r.recency() == Seq::<Seq<char>>::empty(),
            r.capacity() == capacity,
    {
        let r = ImageCache { images: PathMap::new(), order: VecDeque::new(), capacity };
        assert(r.recency() =~= Seq::<Seq<char>>::empty());
        r
    }

    /// `true` if `path` is cached; the recency order does not change.
    pub fn contains(&self, path: &String) -> (r: bool)
        ensures
            r == self.cached().dom().contains(path@),
    {
        self.images.contains_key(path)
    }

    /// The number of cached images.
    pub fn len(&self) -> (r: usize)
        requires
            self.wf(),
        ensures
            r == self.cached().dom().len(),
    {
        self.images.len()
    }

    /// The index of `path` in the recency order.
    fn order_position(&self, path: &String) -> (r: Option<usize>)
        ensures
            match r {
                Some(i) => i < self.order@.len() && self.order@[i as int]@ == path@,
                None => !self.recency().contains(path@),
            },
    {
        let n = self.order.len();
        let mut i: usize = 0;
        while i < n
            invariant
                n == self.order@.len(),
                i <= n,
                forall|j: int| 0 <= j < i ==> self.order@[j]@ != path@,
            decreases n - i,
        {
            if self.order[i] == *path {
                return Some(i);
            }
            i = i + 1;
        }
        proof {
            if self.recency().contains(path@) {
                let j = choose|j: int| 0 <= j < self.recency().len() && self.recency()[j] == path@;
                assert(self.order@[j]@ == path@);
            }
        }
        None
    }

    /// The cached image for `path`; a hit makes it the most recently used.
    pub fn get(&mut self, path: &String) -> (r: Option<&DecodedImage>)
        requires
            old(self).wf(),
        ensures
            final(self).wf(),
            final(self).capacity() == old(self).capacity(),
            final(self).cached() == old(self).cached(),
            r is Some == old(self).cached().dom().contains(path@),
            r matches Some(img) ==> *img == old(self).cached()[path@],
            r is Some ==> moved_to_back(old(self).recency(), final(self).recency(), path@),
            r is None ==> final(self).recency() == old(self).recency(),
    {
        match self.order_position(path) {
            Some(i) => {
                let ghost old_rec = self.recency();
                let _ = self.order.remove(i);
                self.order.push_back(path.clone());
                proof {
                    assert(self.recency() =~= old_rec.remove(i as int).push(path@));
                    assert(old_rec[i as int] == path@);
                    assert(self.recency().no_duplicates()) by {
                        let rec = self.recency();
                        assert forall|a: int, b: int| 0 <= a < rec.len() && 0 <= b < rec.len() && a != b
                            implies rec[a] != rec[b] by {
                            let ia = if a < i { a } else { a + 1 };
                            let ib = if b < i { b } else { b + 1 };
                            if a < rec.len() - 1 && b < rec.len() - 1 {
                                assert(rec[a] == old_rec[ia] && rec[b] == old_rec[ib]);
                            } else if a == rec.len() - 1 {
                                assert(rec[b] == old_rec[ib]);
                            } else {
                                assert(rec[a] == old_rec[ia]);
                            }
                        }
                    }
                    assert forall|k: Seq<char>| self.images@.dom().contains(k) <==> self.recency().contains(k) by {
                        if old_rec.contains(k) {
                            let j = choose|j: int| 0 <= j < old_rec.len() && old_rec[j] == k;
                            if j < i {
                                assert(self.recency()[j] == k);
                            } else if j > i {
                                assert(self.recency()[j - 1] == k);
                            } else {
                                assert(self.recency()[self.recency().len() - 1] == k);
                            }
                        }
                        if self.recency().contains(k) {
                            let j = choose|j: int| 0 <= j < self.recency().len() && self.recency()[j] == k;
                            if j < self.recency().len() - 1 {
                                if j < i {
                                    assert(old_rec[j] == k);
                                } else {
                                    assert(old_rec[j + 1] == k);
                                }
                            } else {
                                assert(old_rec[i as int] == k);
                            }
                        }
                    }
                    assert(self.recency()[self.recency().len() - 1] == path@);
                    assert(self.recency().contains(path@));
                    assert(self.images@.dom().contains(path@));
                }
                self.images.get_ref(path)
            },
            None => {
                proof {
                    assert(!self.images@.dom().contains(path@));
                }
                None
            },
        }
    }

    /// Cache `image` for `path`, unless the path is cached already. When the
    /// cache is full, the least recently used image makes room.
    pub fn insert(&mut self, path: String, image: DecodedImage)
        requires
            old(self).wf(),
        ensures
            final(self).wf(),
            final(self).capacity() == old(self).capacity(),
            old(self).cached().dom().contains(path@) ==> final(self).cached() == old(self).cached()
                && final(self).recency() == old(self).recency(),
            !old(self).cached().dom().contains(path@) ==> {
                if old(self).recency().len() >= old(self).capacity() && old(self).recency().len() > 0 {
                    &&& final(self).cached() == old(self).cached().remove(old(self).recency()[0]).insert(path@, image)
                    &&& final(self).recency() == old(self).recency().drop_first().push(path@)
                } else {
                    &&& final(self).cached() == old(self).cached().insert(path@, image)
                    &&& final(self).recency() == old(self).recency().push(path@)
                }
            },
    {
        if self.images.contains_key(&path) {
            return;
        }
        proof {
            self.lemma_size();
        }
        let ghost old_rec = self.recency();
        let ghost old_map = self.images@;
        if self.images.len() >= self.capacity {
            match self.order.pop_front() {
                Some(oldest) => {
                    self.images.remove(&oldest);
                    proof {
                        assert(self.recency() =~= old_rec.drop_first());
                        assert(oldest@ == old_rec[0]);
                    }
                },
                None => {},
            }
        }
        let ghost mid_rec = self.recency();
        let ghost mid_map = self.images@;
        proof {
            assert(mid_rec.no_duplicates());
            assert(forall|k: Seq<char>| mid_map.dom().contains(k) <==> mid_rec.contains(k)) by {
                assert forall|k: Seq<char>| mid_map.dom().contains(k) <==> mid_rec.contains(k) by {
                    if mid_rec.len() < old_rec.len() {
                        if old_rec.contains(k) {
                            let j = choose|j: int| 0 <= j < old_rec.len() && old_rec[j] == k;
                            if j > 0 {
                                assert(mid_rec[j - 1] == k);
                            }
                        }
                        if mid_rec.contains(k) {
                            let j = choose|j: int| 0 <= j < mid_rec.len() && mid_rec[j] == k;
                            assert(old_rec[j + 1] == k);
                            assert(old_rec[0] != k);
                        }
                    }
                }
            }
        }
        let ghost pv = path@;
        self.order.push_back(path.clone());
        self.images.insert(path, image);
        proof {
            assert(self.recency() =~= mid_rec.push(pv));
            assert(!mid_rec.contains(pv));
            assert(self.recency().no_duplicates()) by {
                let rec = self.recency();
                assert forall|a: int, b: int| 0 <= a < rec.len() && 0 <= b < rec.len() && a != b
                    implies rec[a] != rec[b] by {
                    if a == rec.len() - 1 {
                        assert(mid_rec.contains(rec[b]));
                    } else if b == rec.len() - 1 {
                        assert(mid_rec.contains(rec[a]));
                    }
                }
            }
            assert forall|k: Seq<char>| self.images@.dom().contains(k) <==> self.recency().contains(k) by {
                if mid_rec.contains(k) {
                    let j = choose|j: int| 0 <= j < mid_rec.len() && mid_rec[j] == k;
                    assert(self.recency()[j] == k);
                }
                if self.recency().contains(k) {
                    let j = choose|j: int| 0 <= j < self.recency().len() && self.recency()[j] == k;
                    if j < mid_rec.len() {
                        assert(mid_rec[j] == k);
                    }
                }
                assert(self.recency()[self.recency().len() - 1] == pv);
            }
        }
    }
}

} // verus!
