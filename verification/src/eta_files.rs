//! The source and output files of the eta compiler driver: sources end with `.eta` or `.eti`.
use vstd::prelude::*;
use crate::source_files::{
    extension_ok, files_without_ending, has_ending, invalid_files, lemma_no_invalid_files, output_path,
    output_paths, strings_view,
};

verus! {

/// A failure of the eta compiler driver.
#[derive(Debug)]
pub enum CompilerError {
    /// Source files whose names end neither with `.eta` nor with `.eti`.
    InvalidFilesError(Vec<String>),
}

/// Whether `file` is named as an eta source file.
pub open spec fn is_source_file(file: Seq<char>) -> bool {
    has_ending(file, ".eta"@, ".eti"@)
}

/// The names among `files` that are not eta source files, in order.
pub open spec fn invalid_names(files: Seq<Seq<char>>) -> Seq<Seq<char>> {
    files_without_ending(files, ".eta"@, ".eti"@)
}

/// Checks that every name in `source_files` ends with `.eta` or `.eti`; otherwise fails
/// with the list of those that do not.
pub fn verify_files(source_files: &[String]) -> (r: Result<(), CompilerError>)
    ensures
        r is Ok <==> forall|i: int| 0 <= i < source_files@.len() ==> is_source_file(#[trigger] source_files@[i]@),
        r matches Err(CompilerError::InvalidFilesError(invalids)) ==>
            strings_view(invalids@) == invalid_names(strings_view(source_files@))
            && invalids@.len() > 0,
{
    let invalids = invalid_files(source_files, ".eta", ".eti");
    proof {
        lemma_no_invalid_files(source_files@, ".eta"@, ".eti"@);
    }
    if invalids.len() > 0 {
        return Err(CompilerError::InvalidFilesError(invalids));
    }
    Ok(())
}

/// The output file of each source file: its name under `path`, with extension `ending`.
pub fn construct_paths(source_files: &[String], path: &str, ending: &str) -> (paths: Vec<String>)
    requires
        source_files@.len() > 0 ==> extension_ok(ending@),
    ensures
        paths@.len() == source_files@.len(),
        forall|i: int| 0 <= i < paths@.len() ==>
            (#[trigger] paths@[i])@ == output_path(path@, source_files@[i]@, ending@),
{
    output_paths(source_files, path, ending)
}

/// Checks that `source_files` are all eta source files, and returns the output file of
/// each: its name under `path`, with extension `ending`. (When there are source files and
/// all are valid, an ending with a path separator makes `Path::with_extension` panic.)
pub fn verify_and_construct(source_files: &[String], path: &str, ending: &str) -> (r: Result<Vec<String>, CompilerError>)
    requires
        source_files@.len() > 0
            && (forall|i: int| 0 <= i < source_files@.len() ==> is_source_file(#[trigger] source_files@[i]@))
            ==> extension_ok(ending@),
    ensures
        r is Ok <==> forall|i: int| 0 <= i < source_files@.len() ==> is_source_file(#[trigger] source_files@[i]@),
        r matches Ok(paths) ==> paths@.len() == source_files@.len()
            && forall|i: int| 0 <= i < paths@.len() ==>
                (#[trigger] paths@[i])@ == output_path(path@, source_files@[i]@, ending@),
        r matches Err(CompilerError::InvalidFilesError(invalids)) ==>
            strings_view(invalids@) == invalid_names(strings_view(source_files@))
            && invalids@.len() > 0,
{
    if let Err(e) = verify_files(source_files) {
        return Err(e);
    }
    Ok(construct_paths(source_files, path, ending))
}

} // verus!
