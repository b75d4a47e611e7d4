//! Rules on source file names and on the names of the files that a compiler driver writes.
use vstd::prelude::*;
use crate::text::{ends_with, str_ends_with};

verus! {

/// The path `base` joined with `file`, as `std::path::Path::join` builds it.
pub uninterp spec fn path_join(base: Seq<char>, file: Seq<char>) -> Seq<char>;

/// `path` with its extension set to `extension`, as `std::path::Path::with_extension` builds it.
pub uninterp spec fn path_with_extension(path: Seq<char>, extension: Seq<char>) -> Seq<char>;

/// Joins `file` onto `base` with `std::path::Path::join`. The result is a function of
/// the two paths alone (for the platform's path separator); it is named, not stated.
/// Joining two UTF-8 paths gives a UTF-8 path, so the conversion back to a string is exact.
#[verifier::external_body]
fn join_path(base: &str, file: &str) -> (p: String)
    ensures
        p@ == path_join(base@, file@),
{
    std::path::Path::new(base).join(file).to_string_lossy().into_owned()
}

/// Characters that may separate the parts of a path: `/`, and the backslash, which
/// Windows takes as a separator too.
pub open spec fn is_separator_char(c: char) -> bool {
    c == '/' || c == '\\'
}

/// An extension that holds no path separator, as `Path::with_extension` asks of one.
pub open spec fn extension_ok(extension: Seq<char>) -> bool {
    forall|i: int| 0 <= i < extension.len() ==> !is_separator_char(#[trigger] extension[i])
}

/// Sets the extension of `path` with `std::path::Path::with_extension`. The result is a
/// function of the path and the extension alone; it is named, not stated. The function
/// panics when the extension holds a path separator, so the `requires` leaves out every
/// extension with `/` or a backslash (a separator on Windows, though not on Unix).
#[verifier::external_body]
fn set_extension(path: &str, extension: &str) -> (p: String)
    requires
        extension_ok(extension@),
    ensures
        p@ == path_with_extension(path@, extension@),
{
    std::path::Path::new(path).with_extension(extension).to_string_lossy().into_owned()
}

/// The output file for source file `file`: `file` under `base`, with extension `ending`.
pub open spec fn output_path(base: Seq<char>, file: Seq<char>, ending: Seq<char>) -> Seq<char> {
    path_with_extension(path_join(base, file), ending)
}

/// The views of the strings in `v`.
pub open spec fn strings_view(v: Seq<String>) -> Seq<Seq<char>> {
    v.map_values(|s: String| s@)
}

/// Whether `file` ends with `first` or with `second`.
pub open spec fn has_ending(file: Seq<char>, first: Seq<char>, second: Seq<char>) -> bool {
    ends_with(file, first) || ends_with(file, second)
}

/// The names in `files` that end neither with `first` nor with `second`, in order.
pub open spec fn files_without_ending(files: Seq<Seq<char>>, first: Seq<char>, second: Seq<char>) -> Seq<Seq<char>>
    decreases files.len(),
{
    if files.len() == 0 {
        Seq::empty()
    } else {
        let rest = files_without_ending(files.drop_last(), first, second);
        if has_ending(files.last(), first, second) {
            rest
        } else {
            rest.push(files.last())
        }
    }
}

/// `invalid_files` finds no name exactly when every name of `source_files` has one of the
/// two endings.
pub proof fn lemma_no_invalid_files(source_files: Seq<String>, first: Seq<char>, second: Seq<char>)
    ensures
        files_without_ending(strings_view(source_files), first, second).len() == 0 <==>
            forall|i: int| 0 <= i < source_files.len() ==> has_ending(#[trigger] source_files[i]@, first, second),
{
    let files = strings_view(source_files);
    lemma_files_without_ending_empty(files, first, second);
    if files_without_ending(files, first, second).len() == 0 {
        assert forall|i: int| 0 <= i < source_files.len() implies has_ending(
            #[trigger] source_files[i]@,
            first,
            second,
        ) by {
            assert(files[i] == source_files[i]@);
        }
    } else if forall|i: int| 0 <= i < source_files.len() ==> has_ending(#[trigger] source_files[i]@, first, second) {
        assert forall|i: int| 0 <= i < files.len() implies has_ending(#[trigger] files[i], first, second) by {
            assert(files[i] == source_files[i]@);
        }
    }
}

/// No name is left out exactly when every name has one of the two endings.
pub proof fn lemma_files_without_ending_empty(files: Seq<Seq<char>>, first: Seq<char>, second: Seq<char>)
    ensures
        files_without_ending(files, first, second).len() == 0 <==>
            forall|i: int| 0 <= i < files.len() ==> has_ending(#[trigger] files[i], first, second),
    decreases files.len(),
{
    if files.len() > 0 {
        lemma_files_without_ending_empty(files.drop_last(), first, second);
        assert forall|i: int| 0 <= i < files.len() - 1 implies
            #[trigger] files[i] == files.drop_last()[i] by {}
    }
}

/// The names in `source_files` that end neither with `first` nor with `second`, in order.
pub fn invalid_files(source_files: &[String], first: &str, second: &str) -> (invalids: Vec<String>)
    ensures
        strings_view(invalids@) == files_without_ending(strings_view(source_files@), first@, second@),
{
    let mut invalids: Vec<String> = Vec::new();
    let ghost files = strings_view(source_files@);
    let mut i: usize = 0;
    while i < source_files.len()
        invariant
            i <= source_files@.len(),
            files == strings_view(source_files@),
            strings_view(invalids@) == files_without_ending(files.take(i as int), first@, second@),
        decreases source_files@.len() - i,
    {
        let file = &source_files[i];
        let valid = str_ends_with(file.as_str(), first) || str_ends_with(file.as_str(), second);
        let ghost before = invalids@;
        assert(files.take(i + 1).drop_last() =~= files.take(i as int));
        assert(files.take(i + 1).last() == file@);
        if !valid {
            invalids.push(file.clone());
            assert(strings_view(invalids@) =~= strings_view(before).push(file@));
        }
        i = i + 1;
    }
    assert(files.take(source_files@.len() as int) =~= files);
    invalids
}

/// The output file of each source file: the name under `path`, with extension `ending`.
/// (With a source file to name, an ending that holds a path separator makes
/// `Path::with_extension` panic.)
pub fn output_paths(source_files: &[String], path: &str, ending: &str) -> (paths: Vec<String>)
    requires
        source_files@.len() > 0 ==> extension_ok(ending@),
    ensures
        paths@.len() == source_files@.len(),
        forall|i: int| 0 <= i < paths@.len() ==>
            (#[trigger] paths@[i])@ == output_path(path@, source_files@[i]@, ending@),
{
    let mut paths: Vec<String> = Vec::new();
    let mut i: usize = 0;
    while i < source_files.len()
        invariant
            i <= source_files@.len(),
            paths@.len() == i,
            source_files@.len() > 0 ==> extension_ok(ending@),
            forall|j: int| 0 <= j < i ==> (#[trigger] paths@[j])@ == output_path(path@, source_files@[j]@, ending@),
        decreases source_files@.len() - i,
    {
        let joined = join_path(path, source_files[i].as_str());
        paths.push(set_extension(joined.as_str(), ending));
        i = i + 1;
    }
    paths
}

} // verus!
