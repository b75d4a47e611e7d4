//! The source and output files of the chuda compiler driver: sources end with `.chuda`
//! or `.chudi`.
use vstd::prelude::*;
use crate::source_files::{
    extension_ok, files_without_ending, has_ending, invalid_files, lemma_no_invalid_files, output_path,
    output_paths, strings_view,
};
use crate::text::{push_str, string_of};

verus! {

/// `std::io::Error`, carried through opaquely.
#[verifier::external_type_specification]
#[verifier::external_body]
pub struct ExIoError(std::io::Error);

/// A failure of the compiler driver.
#[derive(Debug)]
pub enum CompilerError {
    /// Source files whose names end neither with `.chuda` nor with `.chudi`.
    InvalidFiles(Vec<String>),
    /// Reading the named file failed.
    IORead(String, std::io::Error),
    /// Writing output failed.
    IOWrite(std::io::Error),
}

/// The text that `{:?}` writes for a list of strings.
pub uninterp spec fn debug_list(items: Seq<Seq<char>>) -> Seq<char>;

/// Writes `items` with `{:?}` (the `Debug` impl of `Vec<String>`): the result is a
/// function of the strings alone; it is named, not stated.
#[verifier::external_body]
fn debug_strings(items: &Vec<String>) -> (s: String)
    ensures
        s@ == debug_list(strings_view(items@)),
{
    format!("{:?}", items)
}

/// The text of an I/O error (its `Display` impl). It comes from the operating system,
/// so nothing is stated of it.
#[verifier::external_body]
fn io_error_text(e: &std::io::Error) -> String {
    e.to_string()
}

impl CompilerError {
    /// The message of this error, as it is written out.
    pub fn to_string(&self) -> (s: String)
        ensures
            match self {
                CompilerError::InvalidFiles(invalids) =>
                    s@ == "Invalid files given: "@ + debug_list(strings_view(invalids@)),
                CompilerError::IORead(file, _) =>
                    s@.take(("Tried reading "@ + file@ + " but failed with: "@).len() as int)
                        == "Tried reading "@ + file@ + " but failed with: "@,
                CompilerError::IOWrite(_) =>
                    s@.take("Tried writing output but failed with: "@.len() as int)
                        == "Tried writing output but failed with: "@,
            },
    {
        match self {
            CompilerError::InvalidFiles(invalids) => {
                let mut s = string_of("Invalid files given: ");
                let list = debug_strings(invalids);
                push_str(&mut s, list.as_str());
                s
            },
            CompilerError::IORead(file, e) => {
                let mut s = string_of("Tried reading ");
                push_str(&mut s, file.as_str());
                push_str(&mut s, " but failed with: ");
                let ghost prefix = s@;
                let text = io_error_text(e);
                push_str(&mut s, text.as_str());
                assert(s@.take(prefix.len() as int) =~= prefix);
                s
            },
            CompilerError::IOWrite(e) => {
                let mut s = string_of("Tried writing output but failed with: ");
                let ghost prefix = s@;
                let text = io_error_text(e);
                push_str(&mut s, text.as_str());
                assert(s@.take(prefix.len() as int) =~= prefix);
                s
            },
        }
    }
}

/// The chuda source files among `files`: those that end with `.chuda` or `.chudi`.
pub open spec fn is_source_file(file: Seq<char>) -> bool {
    has_ending(file, ".chuda"@, ".chudi"@)
}

/// The names among `files` that are not chuda source files, in order.
pub open spec fn invalid_names(files: Seq<Seq<char>>) -> Seq<Seq<char>> {
    files_without_ending(files, ".chuda"@, ".chudi"@)
}

/// Checks that every name in `source_files` ends with `.chuda` or `.chudi`; otherwise
/// fails with the list of those that do not.
pub fn verify_files(source_files: &[String]) -> (r: Result<(), CompilerError>)
    ensures
        r is Ok <==> forall|i: int| 0 <= i < source_files@.len() ==> is_source_file(#[trigger] source_files@[i]@),
        r matches Err(e) ==> e matches CompilerError::InvalidFiles(invalids)
            && strings_view(invalids@) == invalid_names(strings_view(source_files@))
            && invalids@.len() > 0,
{
    let invalids = invalid_files(source_files, ".chuda", ".chudi");
    proof {
        lemma_no_invalid_files(source_files@, ".chuda"@, ".chudi"@);
    }
    if invalids.len() > 0 {
        return Err(CompilerError::InvalidFiles(invalids));
    }
    Ok(())
}

/// The output file of each source file: its name under `path`, with extension `ending`.
pub fn construct_paths(source_files: &[String], path: &str, ending: &str) -> (paths: Vec<String>)
    requires
        source_files@.len() > 0 ==> extension_ok(ending@),
    ensures
        paths@.len() == source_files@.len(),
        forall|i: int| 0 <= i < paths@.len() ==>
            (#[trigger] paths@[i])@ == output_path(path@, source_files@[i]@, ending@),
{
    output_paths(source_files, path, ending)
}

/// Checks that `source_files` are all chuda source files, and returns the output file of
/// each: its name under `path`, with extension `ending`. (When there are source files and
/// all are valid, an ending with a path separator makes `Path::with_extension` panic.)
pub fn verify_and_construct(source_files: &[String], path: &str, ending: &str) -> (r: Result<Vec<String>, CompilerError>)
    requires
        source_files@.len() > 0
            && (forall|i: int| 0 <= i < source_files@.len() ==> is_source_file(#[trigger] source_files@[i]@))
            ==> extension_ok(ending@),
    ensures
        r is Ok <==> forall|i: int| 0 <= i < source_files@.len() ==> is_source_file(#[trigger] source_files@[i]@),
        r matches Ok(paths) ==> paths@.len() == source_files@.len()
            && forall|i: int| 0 <= i < paths@.len() ==>
                (#[trigger] paths@[i])@ == output_path(path@, source_files@[i]@, ending@),
        r matches Err(e) ==> e matches CompilerError::InvalidFiles(invalids)
            && strings_view(invalids@) == invalid_names(strings_view(source_files@))
            && invalids@.len() > 0,
{
    verify_files(source_files)?;
    Ok(construct_paths(source_files, path, ending))
}

} // verus!
