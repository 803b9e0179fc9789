//! Lists of files: choosing the entries of a directory walk by name, pairing
//! paths with versions, filtering by version and sorting by path.

use crate::file_version::FileVersion;
use crate::name_pattern::{find_fault, match_name, pattern_fault, pattern_matches, InvalidPattern};
use crate::paths::{path_le, path_not_after};
use crate::version_reader::{image_version, read_file_version};
use vstd::prelude::*;
use vstd::seq_lib::seq_to_set_is_finite;
use vstd::set_lib::{lemma_int_range, lemma_subset_equality, set_int_range};

verus! {

/// A file and the version read from it, if any.
#[derive(Debug)]
pub struct FileInfo {
    /// The path of the file, as text.
    pub path: String,
    pub version: Option<FileVersion>,
}

impl Clone for FileInfo {
    fn clone(&self) -> (copy: FileInfo)
        ensures
            copy == *self,
    {
        FileInfo { path: self.path.clone(), version: self.version }
    }
}

/// What a directory walk found at one place.
#[derive(Debug)]
pub struct WalkEntry {
    /// The path of the entry, as text.
    pub path: String,
    /// Whether the entry is a file, not a directory or something else.
    pub is_file: bool,
    /// The last component of the path, where it is Unicode.
    pub file_name: Option<String>,
}

impl Clone for WalkEntry {
    fn clone(&self) -> (copy: WalkEntry)
        ensures
            copy == *self,
    {
        WalkEntry {
            path: self.path.clone(),
            is_file: self.is_file,
            file_name: self.file_name.clone(),
        }
    }
}

/// Whether an entry is listed under a pattern: it is a file, its name is
/// Unicode and the pattern matches the name.
pub open spec fn is_listed(pattern: Seq<char>, entry: WalkEntry) -> bool {
    entry.is_file && entry.file_name is Some && pattern_matches(pattern, entry.file_name->Some_0@)
}

/// The paths of the entries that are listed under a pattern, in the order of
/// the entries.
pub open spec fn listed_paths(pattern: Seq<char>, entries: Seq<WalkEntry>) -> Seq<String> {
    entries.filter(|entry: WalkEntry| is_listed(pattern, entry)).map_values(
        |entry: WalkEntry| entry.path,
    )
}

/// Decides whether an entry is listed under a pattern.
fn check_entry(pattern: &str, entry: &WalkEntry) -> (found: bool)
    ensures
        found == is_listed(pattern@, *entry),
{
    if !entry.is_file {
        return false;
    }
    match &entry.file_name {
        Some(name) => match_name(pattern, name.as_str()),
        None => false,
    }
}

/// Checks a shell pattern for file names before a directory is walked for it.
pub fn check_pattern(pattern: &str) -> (checked: Result<(), InvalidPattern>)
    ensures
        match pattern_fault(pattern@) {
            Some((position, reason)) => checked is Err && checked->Err_0.position == position
                && checked->Err_0.reason@ == reason,
            None => checked is Ok,
        },
{
    match find_fault(pattern) {
        Some(fault) => Err(fault),
        None => Ok(()),
    }
}

/// Chooses from the entries of a directory walk the files whose names match a
/// shell pattern, and gives their paths in the order of the walk. Fails, whatever
/// the entries, where the pattern does not compile.
pub fn enumerate_files(entries: Vec<WalkEntry>, pattern: &str) -> (files: Result<
    Vec<String>,
    InvalidPattern,
>)
    ensures
        match pattern_fault(pattern@) {
            Some((position, reason)) => files is Err && files->Err_0.position == position
                && files->Err_0.reason@ == reason,
            None => files is Ok && files->Ok_0@ == listed_paths(pattern@, entries@),
        },
{
    match find_fault(pattern) {
        Some(fault) => {
            return Err(fault);
        },
        None => {},
    }
    let mut files: Vec<String> = Vec::new();
    for entry in it: entries
        invariant
            it.seq() == entries@,
            files@ == listed_paths(pattern@, entries@.take(it.index() as int)),
    {
        proof {
            let seen = entries@.take(it.index() as int);
            let next = entries@.take(it.index() + 1);
            assert(next.drop_last() =~= seen);
            assert(next.last() == entry);
            reveal(Seq::filter);
            assert(listed_paths(pattern@, next) =~= if is_listed(pattern@, entry) {
                listed_paths(pattern@, seen).push(entry.path)
            } else {
                listed_paths(pattern@, seen)
            });
        }
        if check_entry(pattern, &entry) {
            files.push(entry.path);
        }
    }
    assert(entries@.take(entries@.len() as int) =~= entries@);
    Ok(files)
}

/// The record of a file: its path, and its version where versions are asked for
/// and the bytes of the file were read and hold one.
pub open spec fn info_of(path: String, image: Option<Seq<u8>>, include_version: bool) -> FileInfo {
    FileInfo {
        path,
        version: if include_version {
            match image {
                Some(bytes) => image_version(bytes),
                None => None,
            }
        } else {
            None
        },
    }
}

/// The bytes that were read of file `i`: `None` where the file could not be
/// read, and where `images` does not reach that far.
pub open spec fn image_of(images: Seq<Option<Vec<u8>>>, i: int) -> Option<Seq<u8>> {
    if 0 <= i < images.len() {
        match images[i] {
            Some(bytes) => Some(bytes@),
            None => None,
        }
    } else {
        None
    }
}

/// Makes the record of one file from its path and its bytes; `None` stands for
/// a file that could not be read. The bytes are looked at only where versions
/// are asked for.
pub fn file_info(path: String, image: Option<&[u8]>, include_version: bool) -> (info: FileInfo)
    ensures
        info == info_of(
            path,
            match image {
                Some(bytes) => Some(bytes@),
                None => None,
            },
            include_version,
        ),
{
    let version = if include_version {
        match image {
            Some(bytes) => read_file_version(bytes),
            None => None,
        }
    } else {
        None
    };
    FileInfo { path, version }
}

/// Makes the records of a list of files. `images[i]` holds the bytes of
/// `files[i]`, or `None` where the file could not be read; a file for which
/// `images` has no place counts as not read. A file that could not be read, that
/// is no PE image or that holds no version gets no version, and none does where
/// versions are not asked for.
pub fn collect_file_info(
    files: Vec<String>,
    images: &[Option<Vec<u8>>],
    include_version: bool,
) -> (infos: Vec<FileInfo>)
    ensures
        infos@.len() == files@.len(),
        forall|i: int|
            0 <= i < files@.len() ==> #[trigger] infos@[i] == info_of(
                files@[i],
                image_of(images@, i),
                include_version,
            ),
{
    let mut infos: Vec<FileInfo> = Vec::new();
    for path in it: files
        invariant
            it.seq() == files@,
            infos@.len() == it.index(),
            forall|i: int|
                0 <= i < it.index() ==> #[trigger] infos@[i] == info_of(
                    files@[i],
                    image_of(images@, i),
                    include_version,
                ),
    {
        let i = infos.len();
        let info = if i < images.len() {
            match &images[i] {
                Some(bytes) => file_info(path, Some(bytes.as_slice()), include_version),
                None => file_info(path, None, include_version),
            }
        } else {
            file_info(path, None, include_version)
        };
        infos.push(info);
    }
    infos
}

/// Whether a version passes a filter: there is one, it is not below the lower
/// bound and not above the upper bound, as far as the bounds are given.
pub open spec fn within_bounds(
    version: Option<FileVersion>,
    min_version: Option<FileVersion>,
    max_version: Option<FileVersion>,
) -> bool {
    match version {
        Some(version) => {
            &&& min_version is Some ==> version.not_before(min_version->Some_0)
            &&& max_version is Some ==> version.not_after(max_version->Some_0)
        },
        None => false,
    }
}

/// The files of a list that pass a filter, in their order.
pub open spec fn kept_by(
    files: Seq<FileInfo>,
    min_version: Option<FileVersion>,
    max_version: Option<FileVersion>,
) -> Seq<FileInfo> {
    files.filter(|info: FileInfo| within_bounds(info.version, min_version, max_version))
}

/// Decides whether a version passes a filter.
fn check_bounds(
    version: &Option<FileVersion>,
    min_version: &Option<FileVersion>,
    max_version: &Option<FileVersion>,
) -> (passes: bool)
    ensures
        passes == within_bounds(*version, *min_version, *max_version),
{
    match version {
        Some(version) => {
            let min_ok = match min_version {
                Some(min) => version.is_not_before(min),
                None => true,
            };
            let max_ok = match max_version {
                Some(max) => version.is_not_after(max),
                None => true,
            };
            min_ok && max_ok
        },
        None => false,
    }
}

/// Keeps the files whose version lies between the bounds, both included, in
/// their order. A file without a version is dropped, whatever the bounds.
pub fn filter_by_version(
    files: Vec<FileInfo>,
    min_version: Option<FileVersion>,
    max_version: Option<FileVersion>,
) -> (kept: Vec<FileInfo>)
    ensures
        kept@ == kept_by(files@, min_version, max_version),
{
    let mut kept: Vec<FileInfo> = Vec::new();
    for info in it: files
        invariant
            it.seq() == files@,
            kept@ == kept_by(files@.take(it.index() as int), min_version, max_version),
    {
        proof {
            let next = files@.take(it.index() + 1);
            assert(next.drop_last() =~= files@.take(it.index() as int));
            assert(next.last() == info);
            reveal(Seq::filter);
        }
        if check_bounds(&info.version, &min_version, &max_version) {
            kept.push(info);
        }
    }
    assert(files@.take(files@.len() as int) =~= files@);
    kept
}

/// What a filter keeps: files of the list, each with a version that lies within
/// the bounds, and every such file of the list. So once files are filtered,
/// none without a version is left.
pub proof fn lemma_filter_keeps_what_passes(
    files: Seq<FileInfo>,
    min_version: Option<FileVersion>,
    max_version: Option<FileVersion>,
)
    ensures
        ({
            let kept = kept_by(files, min_version, max_version);
            &&& kept.len() <= files.len()
            &&& forall|i: int|
                0 <= i < kept.len() ==> files.contains(#[trigger] kept[i]) && kept[i].version
                    is Some && within_bounds(kept[i].version, min_version, max_version)
            &&& forall|i: int|
                0 <= i < files.len() && within_bounds(files[i].version, min_version, max_version)
                    ==> kept.contains(#[trigger] files[i])
        }),
{
    let passes = |info: FileInfo| within_bounds(info.version, min_version, max_version);
    let kept = files.filter(passes);
    files.lemma_filter_len(passes);
    assert forall|i: int| 0 <= i < kept.len() implies files.contains(#[trigger] kept[i])
        && kept[i].version is Some && within_bounds(kept[i].version, min_version, max_version) by {
        files.lemma_filter_pred(passes, i);
        assert(kept.contains(kept[i]));
        files.lemma_filter_contains_rev(passes, kept[i]);
    }
    assert forall|i: int|
        0 <= i < files.len() && within_bounds(
            files[i].version,
            min_version,
            max_version,
        ) implies kept.contains(#[trigger] files[i]) by {
        files.lemma_filter_contains(passes, i);
    }
}

/// The order of paths, as a relation between two paths as text.
pub open spec fn path_order() -> spec_fn(Seq<char>, Seq<char>) -> bool {
    |a: Seq<char>, b: Seq<char>| path_not_after(a, b)
}

/// Whether `a` may stand right before `b` in a list sorted by an order of
/// paths: `a`'s path does not come after `b`'s, and where the two paths tie,
/// `a` came before `b` in the list that was sorted.
pub open spec fn in_order(
    not_after: spec_fn(Seq<char>, Seq<char>) -> bool,
    a: FileInfo,
    a_from: int,
    b: FileInfo,
    b_from: int,
) -> bool {
    not_after(a.path@, b.path@) && (not_after(b.path@, a.path@) ==> a_from < b_from)
}

/// Whether `output` is `input` sorted by an order of paths, `output[k]` being
/// the file that stood at `origin[k]` in `input`: every file of `input` stands
/// at one place of `output`, and each file may stand right before the next one.
pub open spec fn is_sorted_by(
    not_after: spec_fn(Seq<char>, Seq<char>) -> bool,
    input: Seq<FileInfo>,
    output: Seq<FileInfo>,
    origin: Seq<int>,
) -> bool {
    &&& output.len() == input.len()
    &&& origin.len() == input.len()
    &&& forall|k: int|
        0 <= k < output.len() ==> 0 <= #[trigger] origin[k] < input.len() && output[k]
            == input[origin[k]]
    &&& forall|k: int, m: int|
        0 <= k < m < output.len() ==> #[trigger] origin[k] != #[trigger] origin[m]
    &&& forall|k: int|
        0 <= k < output.len() - 1 ==> in_order(
            not_after,
            #[trigger] output[k],
            origin[k],
            output[k + 1],
            origin[k + 1],
        )
}

/// Whether `a` may stand right before `b` in a list sorted by path.
pub open spec fn in_path_order(a: FileInfo, a_from: int, b: FileInfo, b_from: int) -> bool {
    in_order(path_order(), a, a_from, b, b_from)
}

/// Whether `output` is `input` sorted by path, `output[k]` being the file that
/// stood at `origin[k]` in `input`.
pub open spec fn is_sorted_from(input: Seq<FileInfo>, output: Seq<FileInfo>, origin: Seq<int>)
    -> bool {
    is_sorted_by(path_order(), input, output, origin)
}

/// Whether `order` lists the places from `lo` up to `hi` of `files`, each of
/// them once, so that each file may stand right before the next one.
pub open spec fn is_path_order(files: Seq<FileInfo>, order: Seq<usize>, lo: int, hi: int) -> bool {
    &&& order.len() == hi - lo
    &&& forall|k: int| 0 <= k < order.len() ==> lo <= #[trigger] order[k] < hi
    &&& forall|k: int, m: int|
        0 <= k < m < order.len() ==> #[trigger] order[k] != #[trigger] order[m]
    &&& forall|k: int|
        0 <= k < order.len() - 1 ==> in_path_order(
            files[#[trigger] order[k] as int],
            order[k] as int,
            files[order[k + 1] as int],
            order[k + 1] as int,
        )
}

/// Merges two lists of places, each in path order, the first of places before
/// `mid` and the second of places from `mid` on. Where two paths tie, the place
/// from the first list goes first.
fn merge_orders(
    files: &Vec<FileInfo>,
    left: &Vec<usize>,
    right: &Vec<usize>,
    lo: usize,
    mid: usize,
    hi: usize,
) -> (merged: Vec<usize>)
    requires
        lo <= mid <= hi <= files@.len(),
        is_path_order(files@, left@, lo as int, mid as int),
        is_path_order(files@, right@, mid as int, hi as int),
    ensures
        is_path_order(files@, merged@, lo as int, hi as int),
{
    let mut merged: Vec<usize> = Vec::new();
    let mut i: usize = 0;
    let mut j: usize = 0;
    let ghost mut from_left: Seq<bool> = Seq::empty();
    let ghost mut source: Seq<int> = Seq::empty();
    while i < left.len() || j < right.len()
        invariant
            lo <= mid <= hi <= files@.len(),
            is_path_order(files@, left@, lo as int, mid as int),
            is_path_order(files@, right@, mid as int, hi as int),
            i <= left@.len(),
            j <= right@.len(),
            merged@.len() == i + j,
            from_left.len() == merged@.len(),
            source.len() == merged@.len(),
            forall|k: int|
                0 <= k < merged@.len() ==> if #[trigger] from_left[k] {
                    0 <= source[k] < i && merged@[k] == left@[source[k]]
                } else {
                    0 <= source[k] < j && merged@[k] == right@[source[k]]
                },
            forall|k: int, m: int|
                0 <= k < m < merged@.len() ==> #[trigger] merged@[k] != #[trigger] merged@[m],
            forall|k: int|
                0 <= k < merged@.len() - 1 ==> in_path_order(
                    files@[#[trigger] merged@[k] as int],
                    merged@[k] as int,
                    files@[merged@[k + 1] as int],
                    merged@[k + 1] as int,
                ),
            merged@.len() > 0 && i < left@.len() ==> in_path_order(
                files@[merged@.last() as int],
                merged@.last() as int,
                files@[left@[i as int] as int],
                left@[i as int] as int,
            ),
            merged@.len() > 0 && j < right@.len() ==> in_path_order(
                files@[merged@.last() as int],
                merged@.last() as int,
                files@[right@[j as int] as int],
                right@[j as int] as int,
            ),
        decreases left@.len() - i + right@.len() - j,
    {
        let ghost before = merged@;
        let take_left = if i < left.len() && j < right.len() {
            assert(lo <= left@[i as int] < mid && mid <= right@[j as int] < hi);
            path_le(files[left[i]].path.as_str(), files[right[j]].path.as_str())
        } else {
            i < left.len()
        };
        if take_left {
            let place = left[i];
            assert(lo <= left@[i as int] < mid);
            assert forall|k: int| 0 <= k < before.len() implies #[trigger] before[k] != place by {
                if from_left[k] {
                    assert(left@[source[k]] != left@[i as int]);
                } else {
                    assert(mid <= right@[source[k]]);
                }
            }
            merged.push(place);
            proof {
                from_left = from_left.push(true);
                source = source.push(i as int);
                if i + 1 < left@.len() {
                    assert(in_path_order(
                        files@[left@[i as int] as int],
                        left@[i as int] as int,
                        files@[left@[i + 1] as int],
                        left@[i + 1] as int,
                    ));
                }
            }
            i += 1;
        } else {
            let place = right[j];
            assert(mid <= right@[j as int] < hi);
            assert forall|k: int| 0 <= k < before.len() implies #[trigger] before[k] != place by {
                if from_left[k] {
                    assert(left@[source[k]] < mid);
                } else {
                    assert(right@[source[k]] != right@[j as int]);
                }
            }
            merged.push(place);
            proof {
                from_left = from_left.push(false);
                source = source.push(j as int);
                if j + 1 < right@.len() {
                    assert(in_path_order(
                        files@[right@[j as int] as int],
                        right@[j as int] as int,
                        files@[right@[j + 1] as int],
                        right@[j + 1] as int,
                    ));
                }
            }
            j += 1;
        }
        proof {
            assert forall|k: int| 0 <= k < merged@.len() - 1 implies in_path_order(
                files@[#[trigger] merged@[k] as int],
                merged@[k] as int,
                files@[merged@[k + 1] as int],
                merged@[k + 1] as int,
            ) by {
                if k + 1 < before.len() {
                    assert(merged@[k] == before[k] && merged@[k + 1] == before[k + 1]);
                } else {
                    assert(merged@[k] == before.last());
                }
            }
        }
    }
    proof {
        assert forall|k: int| 0 <= k < merged@.len() implies lo <= #[trigger] merged@[k] < hi by {
            if from_left[k] {
                assert(lo <= left@[source[k]] < mid);
            } else {
                assert(mid <= right@[source[k]] < hi);
            }
        }
    }
    merged
}

/// Lists the places from `lo` up to `hi` of `files` in path order, by sorting
/// each half and merging the two.
fn sort_range(files: &Vec<FileInfo>, lo: usize, hi: usize) -> (order: Vec<usize>)
    requires
        lo <= hi <= files@.len(),
    ensures
        is_path_order(files@, order@, lo as int, hi as int),
    decreases hi - lo,
{
    if hi - lo < 2 {
        let mut order: Vec<usize> = Vec::new();
        if lo < hi {
            order.push(lo);
        }
        return order;
    }
    let mid = lo + (hi - lo) / 2;
    let left = sort_range(files, lo, mid);
    let right = sort_range(files, mid, hi);
    merge_orders(files, &left, &right, lo, mid, hi)
}

/// Moves the files into a new list, the file at place `order[k]` to place `k`.
fn take_in_order(files: Vec<FileInfo>, order: &Vec<usize>) -> (taken: Vec<FileInfo>)
    requires
        is_path_order(files@, order@, 0, files@.len() as int),
    ensures
        taken@.len() == files@.len(),
        forall|k: int| 0 <= k < taken@.len() ==> #[trigger] taken@[k] == files@[order@[k] as int],
{
    let mut slots: Vec<Option<FileInfo>> = Vec::new();
    for info in it: files
        invariant
            it.seq() == files@,
            slots@.len() == it.index(),
            forall|p: int| 0 <= p < slots@.len() ==> #[trigger] slots@[p] == Some(files@[p]),
    {
        slots.push(Some(info));
    }
    let ghost mut moved: Seq<bool> = Seq::new(files@.len(), |p: int| false);
    let mut taken: Vec<FileInfo> = Vec::new();
    let mut k: usize = 0;
    while k < order.len()
        invariant
            is_path_order(files@, order@, 0, files@.len() as int),
            k <= order@.len(),
            slots@.len() == files@.len(),
            moved.len() == files@.len(),
            taken@.len() == k,
            forall|p: int|
                0 <= p < slots@.len() && !moved[p] ==> #[trigger] slots@[p] == Some(files@[p]),
            forall|m: int| k <= m < order@.len() ==> !moved[#[trigger] order@[m] as int],
            forall|m: int| 0 <= m < k ==> #[trigger] taken@[m] == files@[order@[m] as int],
        decreases order@.len() - k,
    {
        let place = order[k];
        assert(0 <= order@[k as int] < files@.len());
        slots.push(None);
        match slots.swap_remove(place) {
            Some(info) => {
                taken.push(info);
            },
            None => {
                proof {
                    assert(!moved[order@[k as int] as int]);
                    assert(false);
                }
            },
        }
        proof {
            moved = moved.update(place as int, true);
            assert forall|m: int| k + 1 <= m < order@.len() implies !moved[#[trigger] order@[
                m
            ] as int] by {
                assert(order@[k as int] != order@[m]);
            }
        }
        k += 1;
    }
    taken
}

/// Sorts files by path, ascending. Files whose paths tie keep the order they
/// came in.
pub fn sort_by_path(files: Vec<FileInfo>) -> (sorted: Vec<FileInfo>)
    ensures
        exists|origin: Seq<int>| is_sorted_from(files@, sorted@, origin),
{
    let order = sort_range(&files, 0, files.len());
    let sorted = take_in_order(files, &order);
    proof {
        let origin = Seq::new(order@.len(), |k: int| order@[k] as int);
        assert forall|k: int| 0 <= k < sorted@.len() - 1 implies in_path_order(
            #[trigger] sorted@[k],
            origin[k],
            sorted@[k + 1],
            origin[k + 1],
        ) by {
            assert(in_path_order(
                files@[order@[k] as int],
                order@[k] as int,
                files@[order@[k + 1] as int],
                order@[k + 1] as int,
            ));
        }
        assert forall|k: int, m: int| 0 <= k < m < sorted@.len() implies #[trigger] origin[k]
            != #[trigger] origin[m] by {
            assert(order@[k] != order@[m]);
        }
        assert(is_sorted_from(files@, sorted@, origin));
    }
    sorted
}

/// Sorting loses no file: every file of the list that was sorted stands at a
/// place of the sorted list.
pub proof fn lemma_sorted_keeps_every_file(
    input: Seq<FileInfo>,
    output: Seq<FileInfo>,
    origin: Seq<int>,
    i: int,
)
    requires
        is_sorted_from(input, output, origin),
        0 <= i < input.len(),
    ensures
        exists|k: int| 0 <= k < output.len() && origin[k] == i && output[k] == input[i],
{
    let places = set_int_range(0, input.len() as int);
    assert(origin.no_duplicates()) by {
        assert forall|k: int, m: int|
            0 <= k < origin.len() && 0 <= m < origin.len() && k != m implies origin[k]
            != origin[m] by {
            if k < m {
                assert(origin[k] != origin[m]);
            } else {
                assert(origin[m] != origin[k]);
            }
        }
    }
    origin.unique_seq_to_set();
    lemma_int_range(0, input.len() as int);
    assert(origin.to_set().finite()) by {
        seq_to_set_is_finite(origin);
    }
    assert(origin.to_set().subset_of(places)) by {
        assert forall|place: int| origin.to_set().contains(place) implies places.contains(
            place,
        ) by {
            let k = choose|k: int| 0 <= k < origin.len() && origin[k] == place;
            assert(0 <= origin[k] < input.len());
        }
    }
    lemma_subset_equality(origin.to_set(), places);
    assert(places.contains(i));
    assert(origin.to_set().contains(i));
    let k = choose|k: int| 0 <= k < origin.len() && origin[k] == i;
    assert(0 <= k < output.len() && origin[k] == i && output[k] == input[i]);
}

/// Under an order of paths that is transitive, a sorted list is in order
/// throughout: no file's path comes after the path of a file behind it, and of
/// two files whose paths tie the one that came first stands first.
pub proof fn lemma_sorted_throughout(
    not_after: spec_fn(Seq<char>, Seq<char>) -> bool,
    input: Seq<FileInfo>,
    output: Seq<FileInfo>,
    origin: Seq<int>,
    k: int,
    m: int,
)
    requires
        is_sorted_by(not_after, input, output, origin),
        forall|a: Seq<char>, b: Seq<char>, c: Seq<char>|
            not_after(a, b) && #[trigger] not_after(b, c) ==> #[trigger] not_after(a, c),
        0 <= k < m < output.len(),
    ensures
        in_order(not_after, output[k], origin[k], output[m], origin[m]),
    decreases m - k,
{
    assert(in_order(not_after, output[m - 1], origin[m - 1], output[m], origin[m]));
    if k < m - 1 {
        lemma_sorted_throughout(not_after, input, output, origin, k, m - 1);
        let first = output[k].path@;
        let before_last = output[m - 1].path@;
        let last = output[m].path@;
        assert(not_after(first, before_last) && not_after(before_last, last));
        if not_after(last, first) {
            assert(not_after(before_last, last) && not_after(last, first));
            assert(not_after(last, first) && not_after(first, before_last));
        }
    }
}

} // verus!
